//! Text operations over character sequences: searching, prefixes, trimming,
//! splitting into lines and writing numbers in decimal.
use vstd::prelude::*;

verus! {

broadcast use vstd::string::group_string_axioms;

// ---------------------------------------------------------------------------
// Specifications
// ---------------------------------------------------------------------------
/// `needle` occurs in `hay` starting at index `i`.
pub open spec fn occurs_at(hay: Seq<char>, needle: Seq<char>, i: int) -> bool {
    0 <= i && i + needle.len() <= hay.len() && hay.subrange(i, i + needle.len()) == needle
}

/// The first index at or after `i` where `needle` occurs.
pub open spec fn find_from(hay: Seq<char>, needle: Seq<char>, i: int) -> Option<int>
    decreases hay.len() + 1 - i,
{
    if i < 0 || i + needle.len() > hay.len() {
        None
    } else if occurs_at(hay, needle, i) {
        Some(i)
    } else {
        find_from(hay, needle, i + 1)
    }
}

/// The first index where `needle` occurs in `hay` (0 for an empty needle).
pub open spec fn find(hay: Seq<char>, needle: Seq<char>) -> Option<int> {
    find_from(hay, needle, 0)
}

pub open spec fn contains(hay: Seq<char>, needle: Seq<char>) -> bool {
    find(hay, needle) is Some
}

pub open spec fn starts_with(s: Seq<char>, p: Seq<char>) -> bool {
    p.len() <= s.len() && s.subrange(0, p.len() as int) == p
}

pub open spec fn ends_with(s: Seq<char>, p: Seq<char>) -> bool {
    p.len() <= s.len() && s.subrange(s.len() - p.len(), s.len() as int) == p
}

/// The characters that Unicode gives the `White_Space` property.
pub open spec fn is_white_space(c: char) -> bool {
    let u = c as u32;
    (0x09 <= u && u <= 0x0d) || u == 0x20 || u == 0x85 || u == 0xa0 || u == 0x1680 || (0x2000 <= u
        && u <= 0x200a) || u == 0x2028 || u == 0x2029 || u == 0x202f || u == 0x205f || u == 0x3000
}

pub open spec fn trim_start(s: Seq<char>) -> Seq<char>
    decreases s.len(),
{
    if s.len() > 0 && is_white_space(s[0]) {
        trim_start(s.drop_first())
    } else {
        s
    }
}

pub open spec fn trim_end(s: Seq<char>) -> Seq<char>
    decreases s.len(),
{
    if s.len() > 0 && is_white_space(s.last()) {
        trim_end(s.drop_last())
    } else {
        s
    }
}

pub open spec fn trim(s: Seq<char>) -> Seq<char> {
    trim_end(trim_start(s))
}

/// A line without its terminating carriage return, if any.
pub open spec fn strip_cr(s: Seq<char>) -> Seq<char> {
    if s.len() > 0 && s.last() == '\r' {
        s.drop_last()
    } else {
        s
    }
}

/// The lines of a text: split at each `\n`, with one `\r` before the `\n`
/// removed; a final line ending adds no empty line.
pub open spec fn lines(s: Seq<char>) -> Seq<Seq<char>>
    decreases s.len(),
{
    if s.len() == 0 {
        Seq::empty()
    } else {
        match find(s, seq!['\n']) {
            None => seq![s],
            Some(k) => {
                proof {
                    lemma_find_some(s, seq!['\n'], 0);
                }
                seq![strip_cr(s.subrange(0, k))] + lines(s.subrange(k + 1, s.len() as int))
            },
        }
    }
}

pub open spec fn digit_char(d: nat) -> char {
    if d == 0 {
        '0'
    } else if d == 1 {
        '1'
    } else if d == 2 {
        '2'
    } else if d == 3 {
        '3'
    } else if d == 4 {
        '4'
    } else if d == 5 {
        '5'
    } else if d == 6 {
        '6'
    } else if d == 7 {
        '7'
    } else if d == 8 {
        '8'
    } else {
        '9'
    }
}

/// The decimal digits of `n`, without leading zeros.
pub open spec fn decimal(n: nat) -> Seq<char>
    decreases n,
{
    if n < 10 {
        seq![digit_char(n)]
    } else {
        decimal(n / 10).push(digit_char(n % 10))
    }
}

/// The decimal text of a signed integer.
pub open spec fn signed_decimal(n: int) -> Seq<char> {
    if n < 0 {
        seq!['-'] + decimal((-n) as nat)
    } else {
        decimal(n as nat)
    }
}

/// The number of bytes of the UTF-8 encoding of `c`.
pub open spec fn utf8_len(c: char) -> nat {
    let u = c as u32;
    if u < 0x80 {
        1
    } else if u < 0x800 {
        2
    } else if u < 0x10000 {
        3
    } else {
        4
    }
}

/// The number of bytes of the UTF-8 encoding of a text.
pub open spec fn utf8_len_seq(s: Seq<char>) -> nat
    decreases s.len(),
{
    if s.len() == 0 {
        0
    } else {
        utf8_len_seq(s.drop_last()) + utf8_len(s.last())
    }
}

// ---------------------------------------------------------------------------
// Lemmas
// ---------------------------------------------------------------------------
proof fn lemma_find_from_skip(hay: Seq<char>, needle: Seq<char>, i: int, j: int)
    requires
        0 <= i <= j,
        forall|k: int| i <= k < j ==> !occurs_at(hay, needle, k),
    ensures
        find_from(hay, needle, i) == find_from(hay, needle, j),
    decreases j - i,
{
    if i < j {
        if i + needle.len() > hay.len() {
            assert(find_from(hay, needle, j) is None) by {
                lemma_find_from_none_past_end(hay, needle, j);
            }
        } else {
            lemma_find_from_skip(hay, needle, i + 1, j);
        }
    }
}

proof fn lemma_find_from_none_past_end(hay: Seq<char>, needle: Seq<char>, j: int)
    requires
        j + needle.len() > hay.len(),
    ensures
        find_from(hay, needle, j) is None,
{
}

pub proof fn lemma_find_some(hay: Seq<char>, needle: Seq<char>, i: int)
    requires
        find_from(hay, needle, i) is Some,
    ensures
        occurs_at(hay, needle, find_from(hay, needle, i)->0),
        i <= find_from(hay, needle, i)->0,
        forall|k: int|
            i <= k < find_from(hay, needle, i)->0 ==> !occurs_at(hay, needle, k),
    decreases hay.len() + 1 - i,
{
    if !occurs_at(hay, needle, i) {
        lemma_find_some(hay, needle, i + 1);
    }
}

pub proof fn lemma_find_none(hay: Seq<char>, needle: Seq<char>, i: int)
    requires
        i >= 0,
        find_from(hay, needle, i) is None,
    ensures
        forall|k: int| i <= k ==> !occurs_at(hay, needle, k),
    decreases hay.len() + 1 - i,
{
    if i + needle.len() <= hay.len() {
        lemma_find_none(hay, needle, i + 1);
    }
}

pub proof fn lemma_decimal_len(n: nat)
    ensures
        decimal(n).len() >= 1,
    decreases n,
{
    if n >= 10 {
        lemma_decimal_len(n / 10);
    }
}

// ---------------------------------------------------------------------------
// Executable operations
// ---------------------------------------------------------------------------
/// Appends one character (std `String::push`).
#[verifier::external_body]
pub(crate) fn push_char(s: &mut String, c: char)
    ensures
        final(s)@ == old(s)@.push(c),
{
    s.push(c);
}

/// The characters of a text.
pub fn chars_of(s: &str) -> (v: Vec<char>)
    ensures
        v@ == s@,
{
    let mut v: Vec<char> = Vec::new();
    for c in it: s.chars()
        invariant
            v@ == it.seq().take(it.index() as int),
            it.seq() == s@,
    {
        v.push(c);
    }
    v
}

/// A text made of the given characters.
pub fn string_from_chars(v: &[char]) -> (s: String)
    ensures
        s@ == v@,
{
    let mut s = String::new();
    let n = v.len();
    for i in 0..n
        invariant
            n == v@.len(),
            s@ == v@.subrange(0, i as int),
    {
        push_char(&mut s, v[i]);
        assert(s@ == v@.subrange(0, i + 1));
    }
    assert(v@.subrange(0, n as int) == v@);
    s
}

/// Appends a sequence of characters.
pub fn push_chars(s: &mut String, v: &[char])
    ensures
        final(s)@ == old(s)@ + v@,
{
    let n = v.len();
    for i in 0..n
        invariant
            n == v@.len(),
            s@ == old(s)@ + v@.subrange(0, i as int),
    {
        push_char(s, v[i]);
        assert(s@ == old(s)@ + v@.subrange(0, i + 1));
    }
    assert(v@.subrange(0, n as int) == v@);
}

/// Appends a text.
pub fn push_str(s: &mut String, t: &str)
    ensures
        final(s)@ == old(s)@ + t@,
{
    let v = chars_of(t);
    push_chars(s, v.as_slice());
}

/// Whether two character sequences are equal.
pub fn chars_eq(a: &[char], b: &[char]) -> (r: bool)
    ensures
        r == (a@ == b@),
{
    if a.len() != b.len() {
        return false;
    }
    let n = a.len();
    for i in 0..n
        invariant
            n == a@.len(),
            n == b@.len(),
            forall|j: int| 0 <= j < i ==> a@[j] == b@[j],
    {
        if a[i] != b[i] {
            return false;
        }
    }
    assert(a@ =~= b@);
    true
}

/// Whether two texts are equal.
pub fn str_eq(a: &str, b: &str) -> (r: bool)
    ensures
        r == (a@ == b@),
{
    let x = chars_of(a);
    let y = chars_of(b);
    chars_eq(x.as_slice(), y.as_slice())
}

/// Whether `needle` occurs in `hay` at index `i`.
pub fn occurs_at_exec(hay: &[char], needle: &[char], i: usize) -> (r: bool)
    ensures
        r == occurs_at(hay@, needle@, i as int),
{
    if i > hay.len() || needle.len() > hay.len() - i {
        return false;
    }
    let n = needle.len();
    for k in 0..n
        invariant
            n == needle@.len(),
            i + n <= hay.len(),
            hay.len() == hay@.len(),
            forall|j: int| 0 <= j < k ==> hay@[i + j] == needle@[j],
    {
        if hay[i + k] != needle[k] {
            assert(hay@.subrange(i as int, i + n)[k as int] != needle@[k as int]);
            return false;
        }
    }
    assert(hay@.subrange(i as int, i + n) =~= needle@);
    true
}

/// The first index at or after `start` where `needle` occurs in `hay`.
pub fn find_from_exec(hay: &[char], needle: &[char], start: usize) -> (r: Option<usize>)
    ensures
        match r {
            Some(i) => find_from(hay@, needle@, start as int) == Some(i as int),
            None => find_from(hay@, needle@, start as int) is None,
        },
{
    if start > hay.len() || needle.len() > hay.len() - start {
        return None;
    }
    let last = hay.len() - needle.len();
    let mut i = start;
    loop
        invariant
            start <= i <= last,
            last + needle@.len() == hay@.len(),
            forall|k: int| start <= k < i ==> !occurs_at(hay@, needle@, k),
        decreases last - i,
    {
        if occurs_at_exec(hay, needle, i) {
            proof {
                lemma_find_from_skip(hay@, needle@, start as int, i as int);
            }
            return Some(i);
        }
        if i == last {
            proof {
                lemma_find_from_skip(hay@, needle@, start as int, i + 1);
                assert(find_from(hay@, needle@, i + 1) is None);
            }
            return None;
        }
        i = i + 1;
    }
}

/// The first index where `needle` occurs in `hay`.
pub fn find_exec(hay: &[char], needle: &[char]) -> (r: Option<usize>)
    ensures
        match r {
            Some(i) => find(hay@, needle@) == Some(i as int),
            None => find(hay@, needle@) is None,
        },
{
    find_from_exec(hay, needle, 0)
}

pub fn contains_exec(hay: &[char], needle: &[char]) -> (r: bool)
    ensures
        r == contains(hay@, needle@),
{
    find_exec(hay, needle).is_some()
}

/// Whether a text contains a given text.
pub fn str_contains(hay: &[char], needle: &str) -> (r: bool)
    ensures
        r == contains(hay@, needle@),
{
    let n = chars_of(needle);
    contains_exec(hay, n.as_slice())
}

pub fn starts_with_exec(s: &[char], p: &[char]) -> (r: bool)
    ensures
        r == starts_with(s@, p@),
{
    let r = occurs_at_exec(s, p, 0);
    proof {
        if r {
            assert(starts_with(s@, p@));
        }
    }
    r
}

pub fn ends_with_exec(s: &[char], p: &[char]) -> (r: bool)
    ensures
        r == ends_with(s@, p@),
{
    if p.len() > s.len() {
        return false;
    }
    occurs_at_exec(s, p, s.len() - p.len())
}

pub fn is_white_space_exec(c: char) -> (r: bool)
    ensures
        r == is_white_space(c),
{
    let u = c as u32;
    (0x09 <= u && u <= 0x0d) || u == 0x20 || u == 0x85 || u == 0xa0 || u == 0x1680 || (0x2000 <= u
        && u <= 0x200a) || u == 0x2028 || u == 0x2029 || u == 0x202f || u == 0x205f || u == 0x3000
}

proof fn lemma_trim_start_skip(s: Seq<char>, i: int)
    requires
        0 <= i <= s.len(),
        forall|k: int| 0 <= k < i ==> is_white_space(s[k]),
    ensures
        trim_start(s) == trim_start(s.subrange(i, s.len() as int)),
    decreases i,
{
    if i > 0 {
        assert(s.drop_first().subrange(i - 1, s.drop_first().len() as int) =~= s.subrange(
            i,
            s.len() as int,
        ));
        lemma_trim_start_skip(s.drop_first(), i - 1);
    } else {
        assert(s.subrange(0, s.len() as int) =~= s);
    }
}

proof fn lemma_trim_end_skip(s: Seq<char>, j: int)
    requires
        0 <= j <= s.len(),
        forall|k: int| j <= k < s.len() ==> is_white_space(s[k]),
    ensures
        trim_end(s) == trim_end(s.subrange(0, j)),
    decreases s.len() - j,
{
    if j < s.len() {
        assert(s.drop_last().subrange(0, j) =~= s.subrange(0, j));
        lemma_trim_end_skip(s.drop_last(), j);
    } else {
        assert(s.subrange(0, j) =~= s);
    }
}

/// A text without leading white space.
pub fn trim_start_exec(s: &[char]) -> (r: Vec<char>)
    ensures
        r@ == trim_start(s@),
{
    let n = s.len();
    let mut i: usize = 0;
    while i < n && is_white_space_exec(s[i])
        invariant
            i <= n,
            n == s@.len(),
            forall|k: int| 0 <= k < i ==> is_white_space(s@[k]),
        decreases n - i,
    {
        i = i + 1;
    }
    proof {
        lemma_trim_start_skip(s@, i as int);
    }
    let ghost t = s@.subrange(i as int, n as int);
    assert(trim_start(t) == t);
    slice_chars(s, i, n)
}

/// A text without leading and trailing white space.
pub fn trim_exec(s: &[char]) -> (r: Vec<char>)
    ensures
        r@ == trim(s@),
{
    let n = s.len();
    let mut i: usize = 0;
    while i < n && is_white_space_exec(s[i])
        invariant
            i <= n,
            n == s@.len(),
            forall|k: int| 0 <= k < i ==> is_white_space(s@[k]),
        decreases n - i,
    {
        i = i + 1;
    }
    proof {
        lemma_trim_start_skip(s@, i as int);
    }
    let ghost t = s@.subrange(i as int, n as int);
    assert(trim_start(t) == t);
    let mut j: usize = n;
    while j > i && is_white_space_exec(s[j - 1])
        invariant
            i <= j <= n,
            n == s@.len(),
            forall|k: int| j <= k < n ==> is_white_space(s@[k]),
        decreases j,
    {
        j = j - 1;
    }
    proof {
        lemma_trim_end_skip(t, j - i);
        assert(t.subrange(0, j - i) =~= s@.subrange(i as int, j as int));
    }
    let mut r: Vec<char> = Vec::new();
    let mut k = i;
    while k < j
        invariant
            i <= k <= j,
            j <= n,
            n == s@.len(),
            r@ == s@.subrange(i as int, k as int),
        decreases j - k,
    {
        r.push(s[k]);
        assert(r@ == s@.subrange(i as int, k + 1));
        k = k + 1;
    }
    r
}

/// The characters of `s` from `from` to `to`.
pub fn slice_chars(s: &[char], from: usize, to: usize) -> (r: Vec<char>)
    requires
        from <= to <= s@.len(),
    ensures
        r@ == s@.subrange(from as int, to as int),
{
    let mut r: Vec<char> = Vec::new();
    let mut k = from;
    while k < to
        invariant
            from <= k <= to,
            to <= s@.len(),
            r@ == s@.subrange(from as int, k as int),
        decreases to - k,
    {
        r.push(s[k]);
        assert(r@ == s@.subrange(from as int, k + 1));
        k = k + 1;
    }
    r
}

/// The lines of a text.
pub fn lines_exec(s: &[char]) -> (r: Vec<Vec<char>>)
    ensures
        r@.len() == lines(s@).len(),
        forall|i: int| 0 <= i < r@.len() ==> #[trigger] r@[i]@ == lines(s@)[i],
{
    let mut out: Vec<Vec<char>> = Vec::new();
    let n = s.len();
    let mut start: usize = 0;
    let nl = ['\n'];
    assert(s@.subrange(0, n as int) =~= s@);
    while start < n
        invariant
            start <= n,
            n == s@.len(),
            nl@ == seq!['\n'],
            out@.map_values(|v: Vec<char>| v@) + lines(s@.subrange(start as int, n as int))
                == lines(s@),
        decreases n - start,
    {
        let ghost rest = s@.subrange(start as int, n as int);
        let found = find_from_exec(s, nl.as_slice(), start);
        match found {
            None => {
                proof {
                    lemma_find_shift_none(s@, seq!['\n'], start as int);
                }
                let line = slice_chars(s, start, n);
                let ghost old_out = out@.map_values(|v: Vec<char>| v@);
                out.push(line);
                assert(out@.map_values(|v: Vec<char>| v@) =~= old_out.push(rest));
                assert(lines(rest) == seq![rest]);
                assert(lines(s@.subrange(n as int, n as int)) =~= Seq::<Seq<char>>::empty());
                start = n;
            },
            Some(k) => {
                proof {
                    lemma_find_shift_some(s@, seq!['\n'], start as int, k as int);
                }
                let mut end = k;
                if end > start && s[end - 1] == '\r' {
                    end = end - 1;
                }
                let line = slice_chars(s, start, end);
                let ghost old_out = out@.map_values(|v: Vec<char>| v@);
                assert(line@ == strip_cr(rest.subrange(0, k - start)));
                out.push(line);
                assert(out@.map_values(|v: Vec<char>| v@) =~= old_out.push(line@));
                assert(rest.subrange(k - start + 1, rest.len() as int) =~= s@.subrange(
                    k + 1,
                    n as int,
                ));
                start = k + 1;
            },
        }
    }
    assert(s@.subrange(0, n as int) =~= s@);
    assert(lines(s@.subrange(n as int, n as int)) =~= Seq::<Seq<char>>::empty());
    assert(out@.map_values(|v: Vec<char>| v@) =~= lines(s@));
    assert forall|i: int| 0 <= i < out@.len() implies #[trigger] out@[i]@ == lines(s@)[i] by {
        assert(out@.map_values(|v: Vec<char>| v@)[i] == out@[i]@);
    }
    out
}

proof fn lemma_find_shift_none(s: Seq<char>, needle: Seq<char>, start: int)
    requires
        0 <= start <= s.len(),
        find_from(s, needle, start) is None,
    ensures
        find(s.subrange(start, s.len() as int), needle) is None,
{
    let t = s.subrange(start, s.len() as int);
    lemma_find_none(s, needle, start);
    if find(t, needle) is Some {
        lemma_find_some(t, needle, 0);
        let k = find(t, needle)->0;
        assert(s.subrange(start + k, start + k + needle.len()) =~= t.subrange(
            k,
            k + needle.len(),
        ));
        assert(occurs_at(s, needle, start + k));
    }
}

proof fn lemma_find_shift_some(s: Seq<char>, needle: Seq<char>, start: int, k: int)
    requires
        0 <= start <= s.len(),
        find_from(s, needle, start) == Some(k),
    ensures
        find(s.subrange(start, s.len() as int), needle) == Some(k - start),
        start <= k,
        k + needle.len() <= s.len(),
{
    let t = s.subrange(start, s.len() as int);
    lemma_find_some(s, needle, start);
    assert(t.subrange(k - start, k - start + needle.len()) =~= s.subrange(k, k + needle.len()));
    assert(occurs_at(t, needle, k - start));
    assert forall|j: int| 0 <= j < k - start implies !occurs_at(t, needle, j) by {
        if occurs_at(t, needle, j) {
            assert(t.subrange(j, j + needle.len()) =~= s.subrange(
                start + j,
                start + j + needle.len(),
            ));
            assert(occurs_at(s, needle, start + j));
        }
    }
    lemma_find_from_skip(t, needle, 0, k - start);
}

/// The decimal text of an unsigned integer.
pub fn decimal_exec(n: u64) -> (r: Vec<char>)
    ensures
        r@ == decimal(n as nat),
    decreases n,
{
    let d = n % 10;
    let c = if d == 0 {
        '0'
    } else if d == 1 {
        '1'
    } else if d == 2 {
        '2'
    } else if d == 3 {
        '3'
    } else if d == 4 {
        '4'
    } else if d == 5 {
        '5'
    } else if d == 6 {
        '6'
    } else if d == 7 {
        '7'
    } else if d == 8 {
        '8'
    } else {
        '9'
    };
    if n < 10 {
        let mut r = Vec::new();
        r.push(c);
        r
    } else {
        let mut r = decimal_exec(n / 10);
        r.push(c);
        r
    }
}

/// The decimal text of a signed integer.
pub fn signed_decimal_exec(n: i64) -> (r: Vec<char>)
    ensures
        r@ == signed_decimal(n as int),
{
    if n < 0 {
        let m: u64 = if n == i64::MIN {
            9223372036854775808u64
        } else {
            (-n) as u64
        };
        let d = decimal_exec(m);
        let mut r = Vec::new();
        r.push('-');
        let mut i: usize = 0;
        while i < d.len()
            invariant
                0 <= i <= d@.len(),
                r@ == seq!['-'] + d@.subrange(0, i as int),
            decreases d@.len() - i,
        {
            r.push(d[i]);
            assert(r@ == seq!['-'] + d@.subrange(0, i + 1));
            i = i + 1;
        }
        assert(d@.subrange(0, d@.len() as int) == d@);
        r
    } else {
        decimal_exec(n as u64)
    }
}

/// The number of bytes of the UTF-8 encoding of a character.
pub fn utf8_len_exec(c: char) -> (r: usize)
    ensures
        r == utf8_len(c),
{
    let u = c as u32;
    if u < 0x80 {
        1
    } else if u < 0x800 {
        2
    } else if u < 0x10000 {
        3
    } else {
        4
    }
}

/// The number of UTF-8 bytes of the first `k` characters of `s`.
pub fn utf8_len_prefix(s: &[char], k: usize) -> (r: u128)
    requires
        k <= s@.len(),
    ensures
        r == utf8_len_seq(s@.subrange(0, k as int)),
        r <= 4 * k,
{
    let mut total: u128 = 0;
    let mut i: usize = 0;
    while i < k
        invariant
            i <= k <= s@.len(),
            total == utf8_len_seq(s@.subrange(0, i as int)),
            total <= 4 * i,
        decreases k - i,
    {
        assert(s@.subrange(0, i + 1).drop_last() =~= s@.subrange(0, i as int));
        total = total + utf8_len_exec(s[i]) as u128;
        i = i + 1;
    }
    total
}

} // verus!
