//! Reading compiler messages: their error codes and the types they name,
//! where in the source they point, and what an AI repair loop should try.
//!
//! Columns are byte offsets into the line, counted from 1, as the
//! compiler's own positions are.
use vstd::prelude::*;
use crate::text::{
    contains, find, starts_with, trim, trim_start, lines, is_white_space, utf8_len_seq, chars_of,
    string_from_chars, str_contains, find_exec, trim_exec, slice_chars, lines_exec,
    starts_with_exec, is_white_space_exec, utf8_len_prefix, push_str, push_chars,
};
use crate::diagnostic::{
    Diagnostic, DiagnosticView, LocationView, SourceLocation, context_location, span_location,
    error_view, with_expected_view, with_found_view, with_hint_view, with_structured_view,
};
use crate::diagnostic::codes::{
    PARSE_ERROR, TYPE_MISMATCH, UNDEFINED_VARIABLE, UNDEFINED_FUNCTION, ARGUMENT_COUNT, ARGUMENT_TYPE,
    RETURN_TYPE, CONDITION_NOT_BOOL, CANNOT_INDEX, NO_SUCH_FIELD, UNKNOWN_STRUCT, NONE_REQUIRES_TYPE,
    MATCH_PATTERN_TYPE, MATCH_BLOCK_NO_VALUE, CONTRACT_VIOLATED, UNSUPPORTED_POSTCONDITION, SMT_TIMEOUT,
    SMT_UNAVAILABLE, USE_AFTER_MOVE, UNKNOWN_AGENT, UNKNOWN_MESSAGE, MESSAGE_ARG_COUNT,
    MESSAGE_MISSING_ARG, UNKNOWN_STATE_FIELD, UNKNOWN_VIEW_AGENT,
};

verus! {

/// An error found while type checking: what it says and the item it is in.
pub struct TypeError {
    pub message: String,
    pub location: String,
}

/// An error found while verifying contracts: what it says and the item it
/// is in.
pub struct VerifyError {
    pub message: String,
    pub location: String,
}

/// Where a parse error is: one position, or a span from a start to an end
/// (lines and columns).
pub enum ErrorPosition {
    Pos(usize, usize),
    Span(usize, usize, usize, usize),
}

// ---------------------------------------------------------------------------
// Texts
// ---------------------------------------------------------------------------
pub open spec fn strip_prefix(s: Seq<char>, p: Seq<char>) -> Option<Seq<char>> {
    if starts_with(s, p) {
        Some(s.subrange(p.len() as int, s.len() as int))
    } else {
        None
    }
}

/// The characters from index `i` on, up to the first whitespace or comma.
pub open spec fn word_from(s: Seq<char>, i: int) -> Seq<char>
    decreases s.len() - i,
{
    if i < 0 || i >= s.len() || is_white_space(s[i]) || s[i] == ',' {
        Seq::empty()
    } else {
        seq![s[i]] + word_from(s, i + 1)
    }
}

pub open spec fn char_lines(v: Seq<Vec<char>>) -> Seq<Seq<char>> {
    v.map_values(|x: Vec<char>| x@)
}

pub open spec fn texts_of(v: Seq<String>) -> Seq<Seq<char>> {
    v.map_values(|x: String| x@)
}

fn text_chars(v: &Vec<String>) -> (r: Vec<Vec<char>>)
    ensures
        char_lines(r@) == texts_of(v@),
{
    let mut r: Vec<Vec<char>> = Vec::new();
    let n = v.len();
    for i in 0..n
        invariant
            n == v@.len(),
            r@.len() == i,
            forall|j: int| 0 <= j < i ==> #[trigger] r@[j]@ == v@[j]@,
    {
        let c = chars_of(v[i].as_str());
        r.push(c);
    }
    assert(char_lines(r@) =~= texts_of(v@));
    r
}

fn word_from_exec(s: &[char], from: usize) -> (r: Vec<char>)
    requires
        from <= s@.len(),
    ensures
        r@ == word_from(s@, from as int),
{
    let mut r: Vec<char> = Vec::new();
    let mut i = from;
    while i < s.len() && !is_white_space_exec(s[i]) && s[i] != ','
        invariant
            from <= i <= s@.len(),
            word_from(s@, from as int) == r@ + word_from(s@, i as int),
        decreases s@.len() - i,
    {
        assert(r@ + (seq![s@[i as int]] + word_from(s@, i + 1)) =~= r@.push(s@[i as int]) + word_from(s@, i + 1));
        r.push(s[i]);
        i = i + 1;
    }
    assert(r@ + Seq::<char>::empty() =~= r@);
    r
}

// ---------------------------------------------------------------------------
// Types named in a message
// ---------------------------------------------------------------------------
/// The types of "`prefix`X`sep`Y": X trimmed, and Y up to the next space
/// or comma.
pub open spec fn mismatch_with(msg: Seq<char>, prefix: Seq<char>, sep: Seq<char>) -> Option<
    (Seq<char>, Seq<char>),
> {
    match find(msg, prefix) {
        None => None,
        Some(start) => {
            let after = msg.subrange(start + prefix.len(), msg.len() as int);
            match find(after, sep) {
                None => None,
                Some(p) => Some((trim(after.subrange(0, p)), word_from(after, p + sep.len()))),
            }
        },
    }
}

/// The expected and found types of a mismatch message: "declared X, got Y",
/// "expected X, got Y" or "expected X, found Y", the first that occurs.
pub open spec fn type_mismatch(msg: Seq<char>) -> Option<(Seq<char>, Seq<char>)> {
    match mismatch_with(msg, "declared "@, ", got "@) {
        Some(x) => Some(x),
        None => match mismatch_with(msg, "expected "@, ", got "@) {
            Some(x) => Some(x),
            None => mismatch_with(msg, "expected "@, ", found "@),
        },
    }
}

fn mismatch_with_exec(msg: &[char], prefix: &str, sep: &str) -> (r: Option<(String, String)>)
    ensures
        match mismatch_with(msg@, prefix@, sep@) {
            Some((a, b)) => r matches Some((x, y)) && x@ == a && y@ == b,
            None => r is None,
        },
{
    let p = chars_of(prefix);
    let q = chars_of(sep);
    match find_exec(msg, p.as_slice()) {
        None => None,
        Some(start) => {
            proof {
                crate::text::lemma_find_some(msg@, p@, 0);
            }
            let plen = p.len();
            let mlen = msg.len();
            assert(start + plen <= mlen);
            let after = slice_chars(msg, start + plen, mlen);
            match find_exec(after.as_slice(), q.as_slice()) {
                None => None,
                Some(pos) => {
                    proof {
                        crate::text::lemma_find_some(after@, q@, 0);
                    }
                    let head = slice_chars(after.as_slice(), 0, pos);
                    let expected = trim_exec(head.as_slice());
                    let found = word_from_exec(after.as_slice(), pos + q.len());
                    Some((string_from_chars(expected.as_slice()), string_from_chars(found.as_slice())))
                },
            }
        },
    }
}

/// Extracts the expected and found types of a type-mismatch message.
pub fn extract_type_mismatch(msg: &str) -> (r: Option<(String, String)>)
    ensures
        match type_mismatch(msg@) {
            Some((a, b)) => r matches Some((x, y)) && x@ == a && y@ == b,
            None => r is None,
        },
{
    let m = chars_of(msg);
    match mismatch_with_exec(m.as_slice(), "declared ", ", got ") {
        Some(x) => Some(x),
        None => match mismatch_with_exec(m.as_slice(), "expected ", ", got ") {
            Some(x) => Some(x),
            None => mismatch_with_exec(m.as_slice(), "expected ", ", found "),
        },
    }
}

/// The name between the first pair of single quotes after `prefix`.
pub open spec fn quoted_name_after(message: Seq<char>, prefix: Seq<char>) -> Option<Seq<char>> {
    match find(message, prefix) {
        None => None,
        Some(start) => {
            let after = message.subrange(start + prefix.len(), message.len() as int);
            match find(after, seq!['\'']) {
                None => None,
                Some(q1) => {
                    let rest = after.subrange(q1 + 1, after.len() as int);
                    match find(rest, seq!['\'']) {
                        None => None,
                        Some(q2) => Some(rest.subrange(0, q2)),
                    }
                },
            }
        },
    }
}

/// Extracts the name quoted after `prefix`, as in "let binding 'x'".
pub fn extract_quoted_name_after(message: &str, prefix: &str) -> (r: Option<String>)
    ensures
        match quoted_name_after(message@, prefix@) {
            Some(n) => r matches Some(x) && x@ == n,
            None => r is None,
        },
{
    let m = chars_of(message);
    let p = chars_of(prefix);
    let quote: Vec<char> = vec!['\''];
    assert(quote@ =~= seq!['\'']);
    let start = match find_exec(m.as_slice(), p.as_slice()) {
        Some(s) => s,
        None => return None,
    };
    proof {
        crate::text::lemma_find_some(m@, p@, 0);
    }
    let plen = p.len();
    let mlen = m.len();
    assert(start + plen <= mlen);
    let after = slice_chars(m.as_slice(), start + plen, mlen);
    let q1 = match find_exec(after.as_slice(), quote.as_slice()) {
        Some(q) => q,
        None => return None,
    };
    proof {
        crate::text::lemma_find_some(after@, quote@, 0);
    }
    let rest = slice_chars(after.as_slice(), q1 + 1, after.len());
    let q2 = match find_exec(rest.as_slice(), quote.as_slice()) {
        Some(q) => q,
        None => return None,
    };
    proof {
        crate::text::lemma_find_some(rest@, quote@, 0);
    }
    let name = slice_chars(rest.as_slice(), 0, q2);
    Some(string_from_chars(name.as_slice()))
}

// ---------------------------------------------------------------------------
// Error codes of type errors
// ---------------------------------------------------------------------------
/// A type named in a message, with the reason or source given for it.
pub type ParsedTypeInfo = Option<(String, Option<String>)>;

pub type TypeInfoText = Option<(Seq<char>, Option<Seq<char>>)>;

pub open spec fn info_text(o: ParsedTypeInfo) -> TypeInfoText {
    match o {
        Some((t, r)) => Some((t@, crate::diagnostic::opt_text(r))),
        None => None,
    }
}

/// The expected type, with `reason`, and the found type of a mismatch.
pub open spec fn mismatch_info(msg: Seq<char>, reason: Seq<char>) -> (TypeInfoText, TypeInfoText) {
    match type_mismatch(msg) {
        Some((e, f)) => (Some((e, Some(reason))), Some((f, None))),
        None => (None, None),
    }
}

/// The error code of a type error message, with the expected and found
/// types it names.
pub open spec fn parse_type_error(msg: Seq<char>) -> (Seq<char>, TypeInfoText, TypeInfoText) {
    if contains(msg, "Use of moved value"@) {
        (USE_AFTER_MOVE@, None, None)
    } else if contains(msg, "type mismatch"@) || contains(msg, "Type mismatch"@) {
        let i = mismatch_info(msg, "declared type"@);
        (TYPE_MISMATCH@, i.0, i.1)
    } else if contains(msg, "Undefined variable"@) {
        (UNDEFINED_VARIABLE@, None, None)
    } else if contains(msg, "Undefined function"@) {
        (UNDEFINED_FUNCTION@, None, None)
    } else if contains(msg, "expects"@) && contains(msg, "argument"@) {
        (ARGUMENT_COUNT@, None, None)
    } else if contains(msg, "Argument"@) && contains(msg, "type mismatch"@) {
        let i = mismatch_info(msg, "expected argument type"@);
        (ARGUMENT_TYPE@, i.0, i.1)
    } else if contains(msg, "Return type mismatch"@) {
        let i = mismatch_info(msg, "declared return type"@);
        (RETURN_TYPE@, i.0, i.1)
    } else if contains(msg, "Condition must be bool"@) {
        (CONDITION_NOT_BOOL@, None, None)
    } else if contains(msg, "Cannot index"@) {
        (CANNOT_INDEX@, None, None)
    } else if contains(msg, "No field"@) {
        (NO_SUCH_FIELD@, None, None)
    } else if contains(msg, "Unknown struct"@) {
        (UNKNOWN_STRUCT@, None, None)
    } else if contains(msg, "None requires explicit"@) {
        (NONE_REQUIRES_TYPE@, None, None)
    } else if contains(msg, "pattern cannot match"@) {
        (MATCH_PATTERN_TYPE@, None, None)
    } else if contains(msg, "block must end with an expression"@) {
        (MATCH_BLOCK_NO_VALUE@, None, None)
    } else if contains(msg, "Unknown agent"@) {
        (UNKNOWN_AGENT@, None, None)
    } else if contains(msg, "has no handler"@) {
        (UNKNOWN_MESSAGE@, None, None)
    } else if contains(msg, "missing required argument"@) {
        (MESSAGE_MISSING_ARG@, None, None)
    } else if contains(msg, "Message"@) && contains(msg, "expects"@) && contains(msg, "argument(s)"@) {
        (MESSAGE_ARG_COUNT@, None, None)
    } else if contains(msg, "Unknown state field"@) {
        (UNKNOWN_STATE_FIELD@, None, None)
    } else if contains(msg, "Unknown agent"@) && contains(msg, "view"@) {
        (UNKNOWN_VIEW_AGENT@, None, None)
    } else {
        (TYPE_MISMATCH@, None, None)
    }
}

fn mismatch_info_exec(msg: &str, reason: &str) -> (r: (ParsedTypeInfo, ParsedTypeInfo))
    ensures
        (info_text(r.0), info_text(r.1)) == mismatch_info(msg@, reason@),
{
    match extract_type_mismatch(msg) {
        Some((e, f)) => (Some((e, Some(reason.to_owned()))), Some((f, None))),
        None => (None, None),
    }
}

/// Parse type error messages to extract structured information
pub fn parse_type_error_message(msg: &str) -> (r: (&'static str, ParsedTypeInfo, ParsedTypeInfo))
    ensures
        (r.0@, info_text(r.1), info_text(r.2)) == parse_type_error(msg@),
{
    let m = chars_of(msg);
    let m = m.as_slice();
    if str_contains(m, "Use of moved value") {
        return (USE_AFTER_MOVE, None, None);
    }
    if str_contains(m, "type mismatch") || str_contains(m, "Type mismatch") {
        let (e, f) = mismatch_info_exec(msg, "declared type");
        return (TYPE_MISMATCH, e, f);
    }
    if str_contains(m, "Undefined variable") {
        return (UNDEFINED_VARIABLE, None, None);
    }
    if str_contains(m, "Undefined function") {
        return (UNDEFINED_FUNCTION, None, None);
    }
    if str_contains(m, "expects") && str_contains(m, "argument") {
        return (ARGUMENT_COUNT, None, None);
    }
    if str_contains(m, "Argument") && str_contains(m, "type mismatch") {
        let (e, f) = mismatch_info_exec(msg, "expected argument type");
        return (ARGUMENT_TYPE, e, f);
    }
    if str_contains(m, "Return type mismatch") {
        let (e, f) = mismatch_info_exec(msg, "declared return type");
        return (RETURN_TYPE, e, f);
    }
    if str_contains(m, "Condition must be bool") {
        return (CONDITION_NOT_BOOL, None, None);
    }
    if str_contains(m, "Cannot index") {
        return (CANNOT_INDEX, None, None);
    }
    if str_contains(m, "No field") {
        return (NO_SUCH_FIELD, None, None);
    }
    if str_contains(m, "Unknown struct") {
        return (UNKNOWN_STRUCT, None, None);
    }
    if str_contains(m, "None requires explicit") {
        return (NONE_REQUIRES_TYPE, None, None);
    }
    if str_contains(m, "pattern cannot match") {
        return (MATCH_PATTERN_TYPE, None, None);
    }
    if str_contains(m, "block must end with an expression") {
        return (MATCH_BLOCK_NO_VALUE, None, None);
    }
    if str_contains(m, "Unknown agent") {
        return (UNKNOWN_AGENT, None, None);
    }
    if str_contains(m, "has no handler") {
        return (UNKNOWN_MESSAGE, None, None);
    }
    if str_contains(m, "missing required argument") {
        return (MESSAGE_MISSING_ARG, None, None);
    }
    if str_contains(m, "Message") && str_contains(m, "expects") && str_contains(m, "argument(s)") {
        return (MESSAGE_ARG_COUNT, None, None);
    }
    if str_contains(m, "Unknown state field") {
        return (UNKNOWN_STATE_FIELD, None, None);
    }
    if str_contains(m, "Unknown agent") && str_contains(m, "view") {
        return (UNKNOWN_VIEW_AGENT, None, None);
    }
    (TYPE_MISMATCH, None, None)
}

// ---------------------------------------------------------------------------
// What to search the source for
// ---------------------------------------------------------------------------
/// `name(` when the message mentions the builtin `name`.
pub open spec fn call_needle(msg: Seq<char>, name: Seq<char>) -> Seq<Seq<char>> {
    if contains(msg, name) {
        seq![name + "("@]
    } else {
        Seq::empty()
    }
}

fn push_call_needle(v: &mut Vec<String>, msg: &[char], name: &str)
    ensures
        texts_of(final(v)@) == texts_of(old(v)@) + call_needle(msg@, name@),
{
    if str_contains(msg, name) {
        let mut needle = name.to_owned();
        push_str(&mut needle, "(");
        v.push(needle);
        assert(texts_of(v@) =~= texts_of(old(v)@) + call_needle(msg@, name@));
    } else {
        assert(texts_of(v@) =~= texts_of(old(v)@) + call_needle(msg@, name@));
    }
}

/// The calls of builtins that a message mentions, in the order of the builtin list.
pub open spec fn builtin_needles(msg: Seq<char>) -> Seq<Seq<char>> {
    call_needle(msg, "vec_new"@)
        + call_needle(msg, "vec_push"@)
        + call_needle(msg, "vec_pop"@)
        + call_needle(msg, "vec_len"@)
        + call_needle(msg, "vec_capacity"@)
        + call_needle(msg, "vec_get"@)
        + call_needle(msg, "vec_set"@)
        + call_needle(msg, "hashmap_new"@)
        + call_needle(msg, "hashmap_insert"@)
        + call_needle(msg, "hashmap_get"@)
        + call_needle(msg, "hashmap_contains"@)
        + call_needle(msg, "hashmap_remove"@)
        + call_needle(msg, "hashmap_len"@)
        + call_needle(msg, "hashmap_clear"@)
        + call_needle(msg, "hashmap_keys"@)
        + call_needle(msg, "result_ok"@)
        + call_needle(msg, "result_err"@)
        + call_needle(msg, "result_is_ok"@)
        + call_needle(msg, "result_is_err"@)
        + call_needle(msg, "result_unwrap"@)
        + call_needle(msg, "result_unwrap_err"@)
        + call_needle(msg, "result_tag"@)
        + call_needle(msg, "result_value"@)
}

fn builtin_needles_exec(msg: &[char]) -> (r: Vec<String>)
    ensures
        texts_of(r@) == builtin_needles(msg@),
{
    let mut v: Vec<String> = Vec::new();
    push_call_needle(&mut v, msg, "vec_new");
    assert(texts_of(v@) =~= call_needle(msg@, "vec_new"@));
    push_call_needle(&mut v, msg, "vec_push");
    push_call_needle(&mut v, msg, "vec_pop");
    push_call_needle(&mut v, msg, "vec_len");
    push_call_needle(&mut v, msg, "vec_capacity");
    push_call_needle(&mut v, msg, "vec_get");
    push_call_needle(&mut v, msg, "vec_set");
    push_call_needle(&mut v, msg, "hashmap_new");
    push_call_needle(&mut v, msg, "hashmap_insert");
    push_call_needle(&mut v, msg, "hashmap_get");
    push_call_needle(&mut v, msg, "hashmap_contains");
    push_call_needle(&mut v, msg, "hashmap_remove");
    push_call_needle(&mut v, msg, "hashmap_len");
    push_call_needle(&mut v, msg, "hashmap_clear");
    push_call_needle(&mut v, msg, "hashmap_keys");
    push_call_needle(&mut v, msg, "result_ok");
    push_call_needle(&mut v, msg, "result_err");
    push_call_needle(&mut v, msg, "result_is_ok");
    push_call_needle(&mut v, msg, "result_is_err");
    push_call_needle(&mut v, msg, "result_unwrap");
    push_call_needle(&mut v, msg, "result_unwrap_err");
    push_call_needle(&mut v, msg, "result_tag");
    push_call_needle(&mut v, msg, "result_value");
    v
}

/// The texts to look for in the source to find what a type error is about.
pub open spec fn search_needles(msg: Seq<char>) -> Seq<Seq<char>> {
    let let_binding = match quoted_name_after(msg, "let binding"@) {
        Some(name) => seq!["let "@ + name],
        None => Seq::empty(),
    };
    let variable = match strip_prefix(msg, "Undefined variable: "@) {
        Some(name) => seq![trim(name)],
        None => Seq::empty(),
    };
    let function = match strip_prefix(msg, "Undefined function: "@) {
        Some(name) => seq![trim(name) + "("@],
        None => Seq::empty(),
    };
    let ret = if contains(msg, "Return type mismatch"@) || contains(msg, "Missing return value"@) {
        seq!["return"@]
    } else {
        Seq::empty()
    };
    let cond = if contains(msg, "Condition must be bool"@) {
        seq!["if "@, "while "@]
    } else {
        Seq::empty()
    };
    builtin_needles(msg) + let_binding + variable + function + ret + cond
}

fn strip_prefix_exec(s: &[char], p: &str) -> (r: Option<Vec<char>>)
    ensures
        match strip_prefix(s@, p@) {
            Some(x) => r matches Some(y) && y@ == x,
            None => r is None,
        },
{
    let pc = chars_of(p);
    if starts_with_exec(s, pc.as_slice()) {
        Some(slice_chars(s, pc.len(), s.len()))
    } else {
        None
    }
}

/// The texts to look for in the source to find what a type error is about.
pub fn type_error_search_needles(message: &str) -> (r: Vec<String>)
    ensures
        texts_of(r@) == search_needles(message@),
{
    let m = chars_of(message);
    let mut needles = builtin_needles_exec(m.as_slice());
    let ghost b = texts_of(needles@);
    let ghost mut l: Seq<Seq<char>> = Seq::empty();
    let ghost mut va: Seq<Seq<char>> = Seq::empty();
    let ghost mut fu: Seq<Seq<char>> = Seq::empty();
    let ghost mut re: Seq<Seq<char>> = Seq::empty();
    let ghost mut co: Seq<Seq<char>> = Seq::empty();
    if let Some(name) = extract_quoted_name_after(message, "let binding") {
        let mut needle = "let ".to_owned();
        push_str(&mut needle, name.as_str());
        proof {
            l = seq![needle@];
        }
        needles.push(needle);
    }
    assert(texts_of(needles@) =~= b + l);
    if let Some(name) = strip_prefix_exec(m.as_slice(), "Undefined variable: ") {
        let t = trim_exec(name.as_slice());
        let needle = string_from_chars(t.as_slice());
        proof {
            va = seq![needle@];
        }
        needles.push(needle);
    }
    assert(texts_of(needles@) =~= b + l + va);
    if let Some(name) = strip_prefix_exec(m.as_slice(), "Undefined function: ") {
        let t = trim_exec(name.as_slice());
        let mut needle = string_from_chars(t.as_slice());
        push_str(&mut needle, "(");
        proof {
            fu = seq![needle@];
        }
        needles.push(needle);
    }
    assert(texts_of(needles@) =~= b + l + va + fu);
    if str_contains(m.as_slice(), "Return type mismatch") || str_contains(
        m.as_slice(),
        "Missing return value",
    ) {
        let needle = "return".to_owned();
        proof {
            re = seq![needle@];
        }
        needles.push(needle);
    }
    assert(texts_of(needles@) =~= b + l + va + fu + re);
    if str_contains(m.as_slice(), "Condition must be bool") {
        let n1 = "if ".to_owned();
        let n2 = "while ".to_owned();
        proof {
            co = seq![n1@, n2@];
        }
        needles.push(n1);
        needles.push(n2);
    }
    assert(texts_of(needles@) =~= b + l + va + fu + re + co);
    needles
}

// ---------------------------------------------------------------------------
// Finding things in the source
// ---------------------------------------------------------------------------
/// The first needle, from index `k` on, that occurs in the line: its index
/// and where it first occurs.
pub open spec fn first_needle_from(line: Seq<char>, needles: Seq<Seq<char>>, k: int) -> Option<(int, int)>
    decreases needles.len() - k,
{
    if k < 0 || k >= needles.len() {
        None
    } else {
        match find(line, needles[k]) {
            Some(c) => Some((k, c)),
            None => first_needle_from(line, needles, k + 1),
        }
    }
}

/// The first line from index `i` on, before `end`, in which a needle
/// occurs: the line's index, the needle's index and its position.
pub open spec fn first_hit(lines: Seq<Seq<char>>, needles: Seq<Seq<char>>, i: int, end: int) -> Option<
    (int, int, int),
>
    decreases end - i,
{
    if i < 0 || i >= end || i >= lines.len() {
        None
    } else {
        match first_needle_from(lines[i], needles, 0) {
            Some((k, c)) => Some((i, k, c)),
            None => first_hit(lines, needles, i + 1, end),
        }
    }
}

/// A location on the line `i`, spanning the needle `k` found at
/// character `c`; columns are byte offsets counted from 1.
pub open spec fn hit_location(
    file: Seq<char>,
    context: Seq<char>,
    lines: Seq<Seq<char>>,
    needles: Seq<Seq<char>>,
    hit: (int, int, int),
) -> LocationView {
    let (i, k, c) = hit;
    let col = utf8_len_seq(lines[i].subrange(0, c));
    let width = utf8_len_seq(needles[k]);
    LocationView {
        file,
        line: Some((i + 1) as u32),
        column: Some((col + 1) as u32),
        end_line: Some((i + 1) as u32),
        end_column: Some((col + width + 1) as u32),
        span_length: Some(width as u32),
        source_line: Some(lines[i]),
        context: Some(context),
    }
}

/// The texts that open the item named `context`.
pub open spec fn context_needles(context: Seq<char>) -> Seq<Seq<char>> {
    seq![
        "fn "@ + context + "("@,
        "comptime fn "@ + context + "("@,
        "kernel "@ + context,
        "shell "@ + context,
        "view "@ + context,
        "agent "@ + context,
    ]
}

/// A line that opens an item.
pub open spec fn opens_item(line: Seq<char>) -> bool {
    let t = trim_start(line);
    starts_with(t, "fn "@) || starts_with(t, "comptime fn "@) || starts_with(t, "kernel "@)
        || starts_with(t, "shell "@) || starts_with(t, "view "@) || starts_with(t, "agent "@)
}

/// The first line from index `i` on that opens an item.
pub open spec fn next_item(lines: Seq<Seq<char>>, i: int) -> Option<int>
    decreases lines.len() - i,
{
    if i < 0 || i >= lines.len() {
        None
    } else if opens_item(lines[i]) {
        Some(i)
    } else {
        next_item(lines, i + 1)
    }
}

/// The lines of the item named `context`: from the first line that names
/// it (or the first line) to the line before the next item (or the end).
pub open spec fn context_range(lines: Seq<Seq<char>>, context: Seq<char>) -> (int, int) {
    let start = match first_hit(lines, context_needles(context), 0, lines.len() as int) {
        Some((i, _, _)) => i,
        None => 0,
    };
    let end = match next_item(lines, start + 1) {
        Some(j) => j,
        None => lines.len() as int,
    };
    (start, end)
}

fn context_needles_exec(context: &str) -> (r: Vec<Vec<char>>)
    ensures
        char_lines(r@) == context_needles(context@),
{
    let mut v: Vec<String> = Vec::new();
    let mut a = "fn ".to_owned();
    push_str(&mut a, context);
    push_str(&mut a, "(");
    v.push(a);
    let mut b = "comptime fn ".to_owned();
    push_str(&mut b, context);
    push_str(&mut b, "(");
    v.push(b);
    let mut c = "kernel ".to_owned();
    push_str(&mut c, context);
    v.push(c);
    let mut d = "shell ".to_owned();
    push_str(&mut d, context);
    v.push(d);
    let mut e = "view ".to_owned();
    push_str(&mut e, context);
    v.push(e);
    let mut f = "agent ".to_owned();
    push_str(&mut f, context);
    v.push(f);
    assert(texts_of(v@) =~= context_needles(context@));
    text_chars(&v)
}

fn first_needle_exec(line: &[char], needles: &Vec<Vec<char>>) -> (r: Option<(usize, usize)>)
    ensures
        match first_needle_from(line@, char_lines(needles@), 0) {
            Some((k, c)) => r == Some((k as usize, c as usize)) && 0 <= k < needles@.len() && 0 <= c
                && c + needles@[k]@.len() <= line@.len(),
            None => r is None,
        },
{
    let ghost nv = char_lines(needles@);
    let n = needles.len();
    for k in 0..n
        invariant
            n == needles@.len(),
            nv == char_lines(needles@),
            first_needle_from(line@, nv, 0) == first_needle_from(line@, nv, k as int),
    {
        match find_exec(line, needles[k].as_slice()) {
            Some(c) => {
                proof {
                    crate::text::lemma_find_some(line@, needles@[k as int]@, 0);
                }
                return Some((k, c));
            },
            None => {},
        }
    }
    None
}

fn first_hit_exec(lines: &Vec<Vec<char>>, needles: &Vec<Vec<char>>, start: usize, end: usize) -> (r:
    Option<(usize, usize, usize)>)
    ensures
        match first_hit(char_lines(lines@), char_lines(needles@), start as int, end as int) {
            Some((i, k, c)) => r == Some((i as usize, k as usize, c as usize)) && 0 <= i < lines@.len()
                && 0 <= k < needles@.len() && 0 <= c && c + needles@[k]@.len() <= lines@[i]@.len(),
            None => r is None,
        },
{
    let ghost lv = char_lines(lines@);
    let ghost nv = char_lines(needles@);
    let mut i = start;
    while i < end && i < lines.len()
        invariant
            start <= i,
            lv == char_lines(lines@),
            nv == char_lines(needles@),
            first_hit(lv, nv, start as int, end as int) == first_hit(lv, nv, i as int, end as int),
        decreases end - i,
    {
        match first_needle_exec(lines[i].as_slice(), needles) {
            Some((k, c)) => {
                return Some((i, k, c));
            },
            None => {},
        }
        i = i + 1;
    }
    None
}

fn hit_location_exec(
    file: &str,
    context: &str,
    lines: &Vec<Vec<char>>,
    needles: &Vec<Vec<char>>,
    i: usize,
    k: usize,
    c: usize,
) -> (r: SourceLocation)
    requires
        i < lines@.len(),
        k < needles@.len(),
        c + needles@[k as int]@.len() <= lines@[i as int]@.len(),
    ensures
        r@ == hit_location(
            file@,
            context@,
            char_lines(lines@),
            char_lines(needles@),
            (i as int, k as int, c as int),
        ),
{
    let col = utf8_len_prefix(lines[i].as_slice(), c);
    let width = utf8_len_prefix(needles[k].as_slice(), needles[k].len());
    assert(needles@[k as int]@.subrange(0, needles@[k as int]@.len() as int) =~= needles@[k as int]@);
    let line_no: u128 = i as u128 + 1;
    SourceLocation {
        file: file.to_owned(),
        line: Some(line_no as u32),
        column: Some((col + 1) as u32),
        end_line: Some(line_no as u32),
        end_column: Some((col + width + 1) as u32),
        span_length: Some(width as u32),
        source_line: Some(string_from_chars(lines[i].as_slice())),
        context: Some(context.to_owned()),
    }
}

fn next_item_exec(lines: &Vec<Vec<char>>, from: usize) -> (r: Option<usize>)
    ensures
        match next_item(char_lines(lines@), from as int) {
            Some(j) => r == Some(j as usize) && from <= j < lines@.len(),
            None => r is None,
        },
{
    let ghost lv = char_lines(lines@);
    let kw: Vec<Vec<char>> = vec![
        chars_of("fn "),
        chars_of("comptime fn "),
        chars_of("kernel "),
        chars_of("shell "),
        chars_of("view "),
        chars_of("agent "),
    ];
    let mut i = from;
    while i < lines.len()
        invariant
            from <= i,
            lv == char_lines(lines@),
            kw@.len() == 6,
            kw@[0]@ == "fn "@,
            kw@[1]@ == "comptime fn "@,
            kw@[2]@ == "kernel "@,
            kw@[3]@ == "shell "@,
            kw@[4]@ == "view "@,
            kw@[5]@ == "agent "@,
            next_item(lv, from as int) == next_item(lv, i as int),
        decreases lines@.len() - i,
    {
        let t = crate::text::trim_start_exec(lines[i].as_slice());
        let t = t.as_slice();
        if starts_with_exec(t, kw[0].as_slice()) || starts_with_exec(t, kw[1].as_slice())
            || starts_with_exec(t, kw[2].as_slice()) || starts_with_exec(t, kw[3].as_slice())
            || starts_with_exec(t, kw[4].as_slice()) || starts_with_exec(t, kw[5].as_slice()) {
            return Some(i);
        }
        i = i + 1;
    }
    None
}

/// The lines of the item named `context`, as a range of line indexes.
pub fn context_line_range(lines: &Vec<Vec<char>>, context: &str) -> (r: (usize, usize))
    ensures
        (r.0 as int, r.1 as int) == context_range(char_lines(lines@), context@),
{
    let needles = context_needles_exec(context);
    let ghost lv = char_lines(lines@);
    assert(lv.len() == lines@.len());
    let start = match first_hit_exec(lines, &needles, 0, lines.len()) {
        Some((i, _, _)) => i,
        None => 0,
    };
    let end = if start < lines.len() {
        match next_item_exec(lines, start + 1) {
            Some(j) => j,
            None => lines.len(),
        }
    } else {
        assert(next_item(lv, start + 1) is None);
        lines.len()
    };
    assert(start as int == context_range(lv, context@).0);
    (start, end)
}

/// The lines of a text.
fn source_lines(source: &str) -> (r: Vec<Vec<char>>)
    ensures
        char_lines(r@) == lines(source@),
{
    let s = chars_of(source);
    let r = lines_exec(s.as_slice());
    assert(char_lines(r@) =~= lines(s@));
    r
}

/// Where the first needle occurs in the lines of the item `context`.
pub open spec fn needles_location(
    file: Seq<char>,
    source: Seq<char>,
    context: Seq<char>,
    needles: Seq<Seq<char>>,
) -> Option<LocationView> {
    let ls = lines(source);
    let (start, end) = context_range(ls, context);
    match first_hit(ls, needles, start, end) {
        Some(h) => Some(hit_location(file, context, ls, needles, h)),
        None => None,
    }
}

/// Finds the first needle in the lines of the item `context`.
pub fn source_location_for_needles(file: &str, source: &str, context: &str, needles: &Vec<String>) -> (r:
    Option<SourceLocation>)
    ensures
        match needles_location(file@, source@, context@, texts_of(needles@)) {
            Some(l) => r matches Some(x) && x@ == l,
            None => r is None,
        },
{
    let ls = source_lines(source);
    let nv = text_chars(needles);
    let (start, end) = context_line_range(&ls, context);
    match first_hit_exec(&ls, &nv, start, end) {
        Some((i, k, c)) => Some(hit_location_exec(file, context, &ls, &nv, i, k, c)),
        None => None,
    }
}

/// Where the item `context` is named in the source: its definition, or
/// else the first mention of the name; without a context, "unknown".
pub open spec fn context_location_in(file: Seq<char>, source: Seq<char>, context: Seq<char>) -> LocationView {
    if context.len() == 0 {
        context_location(file, "unknown"@)
    } else {
        let ls = lines(source);
        let needles = context_needles(context).push(context);
        match first_hit(ls, needles, 0, ls.len() as int) {
            Some(h) => hit_location(file, context, ls, needles, h),
            None => context_location(file, context),
        }
    }
}

/// Finds where the item `context` is named in the source.
pub fn source_location_for_context(file: &str, source: &str, context: &str) -> (r: SourceLocation)
    ensures
        r@ == context_location_in(file@, source@, context@),
{
    if context.is_empty() {
        return SourceLocation::with_context(file, "unknown");
    }
    let ls = source_lines(source);
    let mut needles = context_needles_exec(context);
    let ghost before = char_lines(needles@);
    needles.push(chars_of(context));
    assert(char_lines(needles@) =~= before.push(context@));
    match first_hit_exec(&ls, &needles, 0, ls.len()) {
        Some((i, k, c)) => hit_location_exec(file, context, &ls, &needles, i, k, c),
        None => SourceLocation::with_context(file, context),
    }
}

/// Where a type error is: the first thing its message mentions within the
/// item, else the item itself.
pub open spec fn type_error_location(file: Seq<char>, source: Seq<char>, context: Seq<char>, message: Seq<char>) -> LocationView {
    let needles = search_needles(message);
    if needles.len() > 0 && needles_location(file, source, context, needles) is Some {
        needles_location(file, source, context, needles)->0
    } else {
        context_location_in(file, source, context)
    }
}

/// Finds where a type error is in the source.
pub fn source_location_for_type_error(file: &str, source: &str, context: &str, message: &str) -> (r:
    SourceLocation)
    ensures
        r@ == type_error_location(file@, source@, context@, message@),
{
    let needles = type_error_search_needles(message);
    if needles.len() > 0 {
        if let Some(location) = source_location_for_needles(file, source, context, &needles) {
            return location;
        }
    }
    source_location_for_context(file, source, context)
}

/// The location with the text of its line attached, when the source has it.
pub open spec fn with_source_line_of(l: LocationView, source: Seq<char>) -> LocationView {
    match l.line {
        Some(line) => {
            let idx: int = if line >= 1 {
                line - 1
            } else {
                0
            };
            if idx < lines(source).len() {
                LocationView { source_line: Some(lines(source)[idx]), ..l }
            } else {
                l
            }
        },
        None => l,
    }
}

/// Attaches the text of the location's line.
pub fn attach_source_line(location: SourceLocation, source: &str) -> (r: SourceLocation)
    ensures
        r@ == with_source_line_of(location@, source@),
{
    match location.line {
        Some(line) => {
            let ls = source_lines(source);
            let idx = line.saturating_sub(1) as usize;
            if idx < ls.len() {
                let text = string_from_chars(ls[idx].as_slice());
                location.with_source_line(text.as_str())
            } else {
                location
            }
        },
        None => location,
    }
}

/// The repair hint and suggestion added to a diagnostic, chosen by the
/// first phrase of its message that is known.
pub open spec fn enrich(d: DiagnosticView) -> DiagnosticView {
    let m = d.message;
    if contains(m, "requires explicit Vec<T> type context"@) {
        with_structured_view(with_hint_view(d, "Add an explicit Vec<T> annotation at the binding site, for example `let values: Vec<i32> = vec_new();`."@), "Add an explicit Vec<T> type annotation to the `vec_new()` binding."@, "add_type_annotation"@, "machine_applicable_when_binding_span_known"@, 940)
    } else if contains(m, "requires explicit HashMap<K, V> type context"@) {
        with_structured_view(with_hint_view(d, "Add an explicit HashMap<K, V> annotation at the binding site, for example `let map: HashMap<i32, str> = hashmap_new();`."@), "Add an explicit HashMap<K, V> type annotation to the `hashmap_new()` binding."@, "add_type_annotation"@, "machine_applicable_when_binding_span_known"@, 940)
    } else if contains(m, "expects Vec<T>, got I64"@) || contains(m, "expects HashMap<K, V>, got I64"@) || contains(m, "expects Result<T, E>, got I64"@) {
        with_structured_view(with_hint_view(d, "Do not pass a raw i64 handle directly. Keep the value typed, or explicitly cast the raw handle back to the correct typed handle before calling the builtin."@), "Insert an explicit cast from i64 to the required typed handle before the builtin call."@, "insert_explicit_cast"@, "machine_applicable_when_target_type_known"@, 880)
    } else if contains(m, "result_value requires Result<T, T>"@) {
        with_structured_view(with_hint_view(d, "Use result_unwrap/result_unwrap_err for Result<T, E>. Use result_value only when Ok and Err have the same type."@), "Replace result_value with result_unwrap or result_unwrap_err based on the branch being handled."@, "replace_builtin_call"@, "requires_semantic_choice"@, 750)
    } else if contains(m, "Undefined variable"@) {
        with_structured_view(with_hint_view(d, "Declare the variable before use, pass it as a parameter, or correct the identifier spelling."@), "Introduce a local binding or rename the identifier to an in-scope variable."@, "declare_or_rename_symbol"@, "requires_symbol_context"@, 700)
    } else if contains(m, "Undefined function"@) {
        with_structured_view(with_hint_view(d, "Define the function in the current kernel or call an existing function with the correct name."@), "Add a function definition or rename the call target."@, "define_or_rename_function"@, "requires_symbol_context"@, 700)
    } else if contains(m, "Use of moved value"@) {
        with_structured_view(with_hint_view(d, "The value was moved earlier. Use `copy` at the move site if both variables must remain valid, or stop using the moved source."@), "Insert `copy` before the moved value or rewrite later uses to use the new owner."@, "fix_move_semantics"@, "requires_ownership_context"@, 820)
    } else if contains(m, "None requires explicit"@) {
        with_structured_view(with_hint_view(d, "Annotate the binding with Option<T> so the compiler knows which None type is intended."@), "Add an explicit Option<T> annotation."@, "add_type_annotation"@, "machine_applicable_when_inner_type_known"@, 900)
    } else if contains(m, "type mismatch"@) || contains(m, "Type mismatch"@) {
        with_structured_view(with_hint_view(d, "Make the expression type match the expected type. Prefer changing the expression or adding an explicit annotation over broad casts."@), "Adjust the expression, annotation, or function signature so expected and found types match."@, "fix_type_mismatch"@, "requires_semantic_choice"@, 720)
    } else {
        with_hint_view(d, "Use the error code, expected/found fields, and source context as constraints for the next repair attempt."@)
    }
}

/// Every diagnostic comes out with a repair hint, and with at most one
/// more suggestion than it had.
pub proof fn lemma_enrich_adds_hint(d: DiagnosticView)
    ensures
        enrich(d).ai_prompt_hint is Some,
        enrich(d).suggestions.len() <= d.suggestions.len() + 1,
        enrich(d).error_code == d.error_code,
        enrich(d).message == d.message,
        enrich(d).location == d.location,
{
}

/// Adds the repair hint and suggestion that the message calls for.
pub fn enrich_for_ai(diag: Diagnostic) -> (r: Diagnostic)
    ensures
        r@ == enrich(diag@),
{
    let m = chars_of(diag.message.as_str());
    if str_contains(m.as_slice(), "requires explicit Vec<T> type context") {
        return diag.with_ai_prompt_hint("Add an explicit Vec<T> annotation at the binding site, for example `let values: Vec<i32> = vec_new();`.").with_structured_suggestion(
            "Add an explicit Vec<T> type annotation to the `vec_new()` binding.",
            "add_type_annotation",
            "machine_applicable_when_binding_span_known",
            940,
        );
    }
    if str_contains(m.as_slice(), "requires explicit HashMap<K, V> type context") {
        return diag.with_ai_prompt_hint("Add an explicit HashMap<K, V> annotation at the binding site, for example `let map: HashMap<i32, str> = hashmap_new();`.").with_structured_suggestion(
            "Add an explicit HashMap<K, V> type annotation to the `hashmap_new()` binding.",
            "add_type_annotation",
            "machine_applicable_when_binding_span_known",
            940,
        );
    }
    if str_contains(m.as_slice(), "expects Vec<T>, got I64") || str_contains(m.as_slice(), "expects HashMap<K, V>, got I64") || str_contains(m.as_slice(), "expects Result<T, E>, got I64") {
        return diag.with_ai_prompt_hint("Do not pass a raw i64 handle directly. Keep the value typed, or explicitly cast the raw handle back to the correct typed handle before calling the builtin.").with_structured_suggestion(
            "Insert an explicit cast from i64 to the required typed handle before the builtin call.",
            "insert_explicit_cast",
            "machine_applicable_when_target_type_known",
            880,
        );
    }
    if str_contains(m.as_slice(), "result_value requires Result<T, T>") {
        return diag.with_ai_prompt_hint("Use result_unwrap/result_unwrap_err for Result<T, E>. Use result_value only when Ok and Err have the same type.").with_structured_suggestion(
            "Replace result_value with result_unwrap or result_unwrap_err based on the branch being handled.",
            "replace_builtin_call",
            "requires_semantic_choice",
            750,
        );
    }
    if str_contains(m.as_slice(), "Undefined variable") {
        return diag.with_ai_prompt_hint("Declare the variable before use, pass it as a parameter, or correct the identifier spelling.").with_structured_suggestion(
            "Introduce a local binding or rename the identifier to an in-scope variable.",
            "declare_or_rename_symbol",
            "requires_symbol_context",
            700,
        );
    }
    if str_contains(m.as_slice(), "Undefined function") {
        return diag.with_ai_prompt_hint("Define the function in the current kernel or call an existing function with the correct name.").with_structured_suggestion(
            "Add a function definition or rename the call target.",
            "define_or_rename_function",
            "requires_symbol_context",
            700,
        );
    }
    if str_contains(m.as_slice(), "Use of moved value") {
        return diag.with_ai_prompt_hint("The value was moved earlier. Use `copy` at the move site if both variables must remain valid, or stop using the moved source.").with_structured_suggestion(
            "Insert `copy` before the moved value or rewrite later uses to use the new owner.",
            "fix_move_semantics",
            "requires_ownership_context",
            820,
        );
    }
    if str_contains(m.as_slice(), "None requires explicit") {
        return diag.with_ai_prompt_hint("Annotate the binding with Option<T> so the compiler knows which None type is intended.").with_structured_suggestion(
            "Add an explicit Option<T> annotation.",
            "add_type_annotation",
            "machine_applicable_when_inner_type_known",
            900,
        );
    }
    if str_contains(m.as_slice(), "type mismatch") || str_contains(m.as_slice(), "Type mismatch") {
        return diag.with_ai_prompt_hint("Make the expression type match the expected type. Prefer changing the expression or adding an explicit annotation over broad casts.").with_structured_suggestion(
            "Adjust the expression, annotation, or function signature so expected and found types match.",
            "fix_type_mismatch",
            "requires_semantic_choice",
            720,
        );
    }
    diag.with_ai_prompt_hint("Use the error code, expected/found fields, and source context as constraints for the next repair attempt.")
}
// ---------------------------------------------------------------------------
// Diagnostics from errors
// ---------------------------------------------------------------------------
/// The diagnostic of a type error: its code and types from the message,
/// its location from the source when there is one, and the repair hints.
pub open spec fn type_error_diagnostic(
    message: Seq<char>,
    location: Seq<char>,
    file: Seq<char>,
    source: Option<Seq<char>>,
) -> DiagnosticView {
    let p = parse_type_error(message);
    let loc = match source {
        Some(s) => type_error_location(file, s, location, message),
        None => context_location(file, location),
    };
    let d0 = error_view(p.0, message, loc);
    let d1 = match p.1 {
        Some((t, reason)) => with_expected_view(d0, t, reason),
        None => d0,
    };
    let d2 = match p.2 {
        Some((t, src)) => with_found_view(d1, t, src),
        None => d1,
    };
    enrich(d2)
}

/// Convert TypeError to Diagnostic, using source text for best-effort locations.
pub fn type_error_to_diagnostic_with_source(err: &TypeError, file: &str, source: Option<&str>) -> (r:
    Diagnostic)
    ensures
        r@ == type_error_diagnostic(
            err.message@,
            err.location@,
            file@,
            match source {
                Some(s) => Some(s@),
                None => None,
            },
        ),
{
    let (code, expected, found) = parse_type_error_message(err.message.as_str());
    let location = match source {
        Some(s) => source_location_for_type_error(
            file,
            s,
            err.location.as_str(),
            err.message.as_str(),
        ),
        None => SourceLocation::with_context(file, err.location.as_str()),
    };
    let mut diag = Diagnostic::error(code, err.message.as_str(), location);
    if let Some((exp_type, reason)) = expected {
        diag = diag.with_expected(exp_type.as_str(), reason);
    }
    if let Some((found_type, src)) = found {
        diag = diag.with_found(found_type.as_str(), src);
    }
    enrich_for_ai(diag)
}

/// The error code of a verification error message.
pub open spec fn verify_error_code(message: Seq<char>) -> Seq<char> {
    if contains(message, "timeout"@) || contains(message, "inconclusive"@) {
        SMT_TIMEOUT@
    } else if contains(message, "not available"@) {
        SMT_UNAVAILABLE@
    } else if contains(message, "Unsupported"@) {
        UNSUPPORTED_POSTCONDITION@
    } else {
        CONTRACT_VIOLATED@
    }
}

/// The diagnostic of a verification error.
pub open spec fn verify_error_diagnostic(
    message: Seq<char>,
    location: Seq<char>,
    file: Seq<char>,
    source: Option<Seq<char>>,
) -> DiagnosticView {
    let loc = match source {
        Some(s) => context_location_in(file, s, location),
        None => context_location(file, location),
    };
    enrich(error_view(verify_error_code(message), message, loc))
}

/// Convert VerifyError to Diagnostic, using source text for best-effort locations.
pub fn verify_error_to_diagnostic_with_source(err: &VerifyError, file: &str, source: Option<&str>) -> (r:
    Diagnostic)
    ensures
        r@ == verify_error_diagnostic(
            err.message@,
            err.location@,
            file@,
            match source {
                Some(s) => Some(s@),
                None => None,
            },
        ),
{
    let m = chars_of(err.message.as_str());
    let m = m.as_slice();
    let code = if str_contains(m, "timeout") || str_contains(m, "inconclusive") {
        SMT_TIMEOUT
    } else if str_contains(m, "not available") {
        SMT_UNAVAILABLE
    } else if str_contains(m, "Unsupported") {
        UNSUPPORTED_POSTCONDITION
    } else {
        CONTRACT_VIOLATED
    };
    let location = match source {
        Some(s) => source_location_for_context(file, s, err.location.as_str()),
        None => SourceLocation::with_context(file, err.location.as_str()),
    };
    enrich_for_ai(Diagnostic::error(code, err.message.as_str(), location))
}

/// The span of a parse error position: one column wide for a position.
pub open spec fn parse_error_span(file: Seq<char>, position: ErrorPosition) -> LocationView {
    match position {
        ErrorPosition::Pos(line, column) => span_location(
            file,
            line as u32,
            column as u32,
            line as u32,
            (column as u32).saturating_add(1),
        ),
        ErrorPosition::Span(sl, sc, el, ec) => span_location(
            file,
            sl as u32,
            sc as u32,
            el as u32,
            ec as u32,
        ),
    }
}

/// The diagnostic of a parse error at `position` whose text is `text`.
pub open spec fn parse_error_view(
    position: ErrorPosition,
    text: Seq<char>,
    file: Seq<char>,
    source: Seq<char>,
) -> DiagnosticView {
    let loc = with_source_line_of(parse_error_span(file, position), source);
    let loc = LocationView { context: Some("parsing"@), ..loc };
    enrich(error_view(PARSE_ERROR@, "Parse error: "@ + text, loc))
}

/// The diagnostic of a parse error, from its position and its text.
pub fn parse_error_diagnostic(position: ErrorPosition, text: &str, file: &str, source: &str) -> (r:
    Diagnostic)
    ensures
        r@ == parse_error_view(position, text@, file@, source@),
{
    let location = match position {
        ErrorPosition::Pos(line, column) => SourceLocation::with_span(
            file,
            line as u32,
            column as u32,
            line as u32,
            (column as u32).saturating_add(1),
        ),
        ErrorPosition::Span(sl, sc, el, ec) => SourceLocation::with_span(
            file,
            sl as u32,
            sc as u32,
            el as u32,
            ec as u32,
        ),
    };
    let location = attach_source_line(location, source).with_context_value("parsing");
    let mut message = "Parse error: ".to_owned();
    push_str(&mut message, text);
    enrich_for_ai(Diagnostic::error(PARSE_ERROR, message.as_str(), location))
}

#[verifier::external_type_specification]
#[verifier::external_body]
#[verifier::reject_recursive_types(R)]
pub struct ExPestError<R>(pest::error::Error<R>);

/// The line and column position of a parse error (pest's
/// `Error::line_col`, read as it is); nothing is claimed of its values.
#[verifier::external_body]
fn pest_error_position<R: pest::RuleType>(err: &pest::error::Error<R>) -> (r: ErrorPosition) {
    match &err.line_col {
        pest::error::LineColLocation::Pos((line, column)) => ErrorPosition::Pos(*line, *column),
        pest::error::LineColLocation::Span((sl, sc), (el, ec)) => ErrorPosition::Span(
            *sl,
            *sc,
            *el,
            *ec,
        ),
    }
}

/// The message of a parse error's variant (pest's `ErrorVariant::message`:
/// what was expected or found, without the position or the source line);
/// nothing is claimed of the text.
#[verifier::external_body]
fn pest_error_message<R: pest::RuleType>(err: &pest::error::Error<R>) -> (r: String) {
    err.variant.message().into_owned()
}

/// Convert a parser error to a source-located Diagnostic.
pub fn parse_error_to_diagnostic<R: pest::RuleType>(
    err: &pest::error::Error<R>,
    file: &str,
    source: &str,
) -> (r: Diagnostic)
    ensures
        exists|position: ErrorPosition, text: Seq<char>|
            r@ == parse_error_view(position, text, file@, source@),
{
    let position = pest_error_position(err);
    let ghost p = position;
    let text = pest_error_message(err);
    let r = parse_error_diagnostic(position, text.as_str(), file, source);
    assert(r@ == parse_error_view(p, text@, file@, source@));
    r
}

} // verus!
