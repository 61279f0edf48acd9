//! Association lists: lists of named entries read as maps, in which the
//! last entry of a name is the one that counts.
use vstd::prelude::*;
use vstd::pervasive::VecAdditionalExecFns;
use crate::text::str_eq;

verus! {

pub open spec fn assoc_map<X, Y>(s: Seq<(String, X)>, f: spec_fn(X) -> Y) -> Map<Seq<char>, Y>
    decreases s.len(),
{
    if s.len() == 0 {
        Map::empty()
    } else {
        assoc_map(s.drop_last(), f).insert(s.last().0@, f(s.last().1))
    }
}

/// `i` is the last index of the list whose entry has name `k`.
pub open spec fn last_index_of<X>(s: Seq<(String, X)>, k: Seq<char>, i: int) -> bool {
    0 <= i < s.len() && s[i].0@ == k && forall|j: int| i < j < s.len() ==> s[j].0@ != k
}

pub proof fn lemma_assoc_absent<X, Y>(s: Seq<(String, X)>, f: spec_fn(X) -> Y, k: Seq<char>)
    requires
        forall|j: int| 0 <= j < s.len() ==> s[j].0@ != k,
    ensures
        !assoc_map(s, f).contains_key(k),
    decreases s.len(),
{
    if s.len() > 0 {
        lemma_assoc_absent(s.drop_last(), f, k);
    }
}

pub proof fn lemma_assoc_last<X, Y>(s: Seq<(String, X)>, f: spec_fn(X) -> Y, k: Seq<char>, i: int)
    requires
        last_index_of(s, k, i),
    ensures
        assoc_map(s, f).contains_key(k),
        assoc_map(s, f)[k] == f(s[i].1),
    decreases s.len(),
{
    if i < s.len() - 1 {
        lemma_assoc_last(s.drop_last(), f, k, i);
    }
}

pub proof fn lemma_assoc_update<X, Y>(
    s: Seq<(String, X)>,
    f: spec_fn(X) -> Y,
    k: Seq<char>,
    i: int,
    e: (String, X),
)
    requires
        last_index_of(s, k, i),
        e.0@ == k,
    ensures
        assoc_map(s.update(i, e), f) == assoc_map(s, f).insert(k, f(e.1)),
    decreases s.len(),
{
    let s2 = s.update(i, e);
    if i == s.len() - 1 {
        assert(s2.drop_last() =~= s.drop_last());
        assert(assoc_map(s2, f) =~= assoc_map(s, f).insert(k, f(e.1)));
    } else {
        lemma_assoc_update(s.drop_last(), f, k, i, e);
        assert(s2.drop_last() =~= s.drop_last().update(i, e));
        assert(assoc_map(s2, f) =~= assoc_map(s, f).insert(k, f(e.1)));
    }
}

/// Finds the last entry named `name`.
pub fn find_last<X>(s: &Vec<(String, X)>, name: &str) -> (r: Option<usize>)
    ensures
        match r {
            Some(i) => last_index_of(s@, name@, i as int),
            None => forall|j: int| 0 <= j < s@.len() ==> s@[j].0@ != name@,
        },
{
    let mut i = s.len();
    while i > 0
        invariant
            i <= s@.len(),
            forall|j: int| i <= j < s@.len() ==> s@[j].0@ != name@,
        decreases i,
    {
        if str_eq(s[i - 1].0.as_str(), name) {
            return Some(i - 1);
        }
        i = i - 1;
    }
    None
}


/// The map of a list whose entries are the values themselves.
pub open spec fn table_map<X>(s: Seq<(String, X)>) -> Map<Seq<char>, X> {
    assoc_map(s, |x: X| x)
}

/// Sets the value of a name: replaces its last entry, or adds one.
pub fn assoc_insert<X>(s: &mut Vec<(String, X)>, name: String, v: X)
    ensures
        table_map(final(s)@) == table_map(old(s)@).insert(name@, v),
{
    match find_last(s, name.as_str()) {
        Some(i) => {
            proof {
                lemma_assoc_update(old(s)@, |x: X| x, name@, i as int, (name, v));
            }
            s.set(i, (name, v));
        },
        None => {
            let ghost before = s@;
            s.push((name, v));
            proof {
                assert(s@.drop_last() =~= before);
            }
        },
    }
}

/// Looks a name up: the value of its last entry.
pub fn assoc_get<'a, X>(s: &'a Vec<(String, X)>, name: &str) -> (r: Option<&'a X>)
    ensures
        match r {
            Some(x) => table_map(s@).contains_key(name@) && table_map(s@)[name@] == *x,
            None => !table_map(s@).contains_key(name@),
        },
{
    match find_last(s, name) {
        Some(i) => {
            proof {
                lemma_assoc_last(s@, |x: X| x, name@, i as int);
            }
            Some(&s[i].1)
        },
        None => {
            proof {
                lemma_assoc_absent(s@, |x: X| x, name@);
            }
            None
        },
    }
}

} // verus!
