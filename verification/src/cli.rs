//! The text handling of the command line: `--arg name=value` pairs and
//! the `import "path";` lines of self-hosted sources.
use vstd::prelude::*;
use vstd::pervasive::VecAdditionalExecFns;
use crate::assoc::{assoc_map, find_last, lemma_assoc_update};
use crate::text::{
    find, trim, starts_with, ends_with, chars_of, find_exec, trim_exec, slice_chars,
    starts_with_exec, ends_with_exec, string_from_chars, push_str,
};

verus! {

pub open spec fn strip_prefix(s: Seq<char>, p: Seq<char>) -> Option<Seq<char>> {
    if starts_with(s, p) {
        Some(s.subrange(p.len() as int, s.len() as int))
    } else {
        None
    }
}

pub open spec fn strip_suffix(s: Seq<char>, p: Seq<char>) -> Option<Seq<char>> {
    if ends_with(s, p) {
        Some(s.subrange(0, s.len() - p.len()))
    } else {
        None
    }
}

fn strip_prefix_chars(s: &[char], p: &[char]) -> (r: Option<Vec<char>>)
    ensures
        match strip_prefix(s@, p@) {
            Some(x) => r matches Some(y) && y@ == x,
            None => r is None,
        },
{
    if starts_with_exec(s, p) {
        Some(slice_chars(s, p.len(), s.len()))
    } else {
        None
    }
}

fn strip_suffix_chars(s: &[char], p: &[char]) -> (r: Option<Vec<char>>)
    ensures
        match strip_suffix(s@, p@) {
            Some(x) => r matches Some(y) && y@ == x,
            None => r is None,
        },
{
    if ends_with_exec(s, p) {
        Some(slice_chars(s, 0, s.len() - p.len()))
    } else {
        None
    }
}

/// The path of an `import "path";` line, when the line is one and the
/// path is not empty.
pub open spec fn import_path(line: Seq<char>) -> Option<Seq<char>> {
    match strip_prefix(trim(line), "import "@) {
        None => None,
        Some(rest) => match strip_suffix(trim(rest), seq![';']) {
            None => None,
            Some(quoted) => match strip_prefix(trim(quoted), seq!['"']) {
                None => None,
                Some(open) => match strip_suffix(open, seq!['"']) {
                    None => None,
                    Some(path) => if path.len() == 0 {
                        None
                    } else {
                        Some(path)
                    },
                },
            },
        },
    }
}

/// Reads the path of an `import "path";` line.
pub fn parse_self_host_import(line: &str) -> (r: Option<String>)
    ensures
        match import_path(line@) {
            Some(p) => r matches Some(x) && x@ == p,
            None => r is None,
        },
{
    let l = chars_of(line);
    let trimmed = trim_exec(l.as_slice());
    let import_kw = chars_of("import ");
    let rest = match strip_prefix_chars(trimmed.as_slice(), import_kw.as_slice()) {
        Some(r) => r,
        None => return None,
    };
    let rest = trim_exec(rest.as_slice());
    let semi: Vec<char> = vec![';'];
    assert(semi@ =~= seq![';']);
    let quoted = match strip_suffix_chars(rest.as_slice(), semi.as_slice()) {
        Some(q) => q,
        None => return None,
    };
    let quoted = trim_exec(quoted.as_slice());
    let quote: Vec<char> = vec!['"'];
    assert(quote@ =~= seq!['"']);
    let open = match strip_prefix_chars(quoted.as_slice(), quote.as_slice()) {
        Some(o) => o,
        None => return None,
    };
    let path = match strip_suffix_chars(open.as_slice(), quote.as_slice()) {
        Some(p) => p,
        None => return None,
    };
    if path.len() == 0 {
        return None;
    }
    Some(string_from_chars(path.as_slice()))
}

/// A `name=value` argument split at its first `=`, both sides trimmed.
pub open spec fn split_arg(item: Seq<char>) -> Option<(Seq<char>, Seq<char>)> {
    match find(item, seq!['=']) {
        None => None,
        Some(i) => Some(
            (trim(item.subrange(0, i)), trim(item.subrange(i + 1, item.len() as int))),
        ),
    }
}

/// The arguments from index `i` on, added to `m`: `Err` with the first
/// one that has no `=`.
pub open spec fn run_args_from(items: Seq<String>, i: int, m: Map<Seq<char>, Seq<char>>) -> Result<
    Map<Seq<char>, Seq<char>>,
    Seq<char>,
>
    decreases items.len() - i,
{
    if i < 0 || i >= items.len() {
        Ok(m)
    } else {
        match split_arg(items[i]@) {
            None => Err(items[i]@),
            Some((k, v)) => run_args_from(items, i + 1, m.insert(k, v)),
        }
    }
}

/// A list of named texts read as a map; the last entry of a name counts.
pub open spec fn text_table(v: Seq<(String, String)>) -> Map<Seq<char>, Seq<char>> {
    assoc_map(v, |s: String| s@)
}

fn text_insert(v: &mut Vec<(String, String)>, k: String, val: String)
    ensures
        text_table(final(v)@) == text_table(old(v)@).insert(k@, val@),
{
    match find_last(v, k.as_str()) {
        Some(i) => {
            proof {
                lemma_assoc_update(old(v)@, |s: String| s@, k@, i as int, (k, val));
            }
            v.set(i, (k, val));
        },
        None => {
            let ghost before = v@;
            v.push((k, val));
            proof {
                assert(v@.drop_last() =~= before);
            }
        },
    }
}

/// Reads `--arg name=value` arguments.
pub fn parse_run_args(args: &[String]) -> (r: Result<Vec<(String, String)>, String>)
    ensures
        match run_args_from(args@, 0, Map::empty()) {
            Ok(m) => r matches Ok(v) && text_table(v@) == m,
            Err(item) => r matches Err(e) && e@ == "Invalid --arg value (expected name=value): "@
                + item,
        },
{
    let mut map: Vec<(String, String)> = Vec::new();
    let eq: Vec<char> = vec!['='];
    assert(eq@ =~= seq!['=']);
    let n = args.len();
    for i in 0..n
        invariant
            n == args@.len(),
            eq@ == seq!['='],
            run_args_from(args@, 0, Map::empty()) == run_args_from(
                args@,
                i as int,
                text_table(map@),
            ),
    {
        let item = chars_of(args[i].as_str());
        match find_exec(item.as_slice(), eq.as_slice()) {
            None => {
                let mut e = "Invalid --arg value (expected name=value): ".to_owned();
                push_str(&mut e, args[i].as_str());
                return Err(e);
            },
            Some(pos) => {
                proof {
                    crate::text::lemma_find_some(item@, eq@, 0);
                }
                let len = item.len();
                assert(pos + 1 <= len);
                let key = trim_exec(slice_chars(item.as_slice(), 0, pos).as_slice());
                let value = trim_exec(slice_chars(item.as_slice(), pos + 1, len).as_slice());
                text_insert(
                    &mut map,
                    string_from_chars(key.as_slice()),
                    string_from_chars(value.as_slice()),
                );
            },
        }
    }
    Ok(map)
}

} // verus!
