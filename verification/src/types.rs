//! Analysis of Rust type names given as text, such as `Result<Json<T>, E>`.

use crate::text::{
    chars_eq, chars_of, find_char, first_index_of, is_ws, lemma_first_index_of, slice_chars, string_of,
    trim, trim_chars, trim_end, trim_start,
};
use vstd::prelude::*;

verus! {

/// Names treated as primitive (no schema declaration needed) by
/// `is_primitive_type_name`.
pub open spec fn primitive_type_names() -> Seq<Seq<char>> {
    seq![
        "()"@,
        "String"@,
        "str"@,
        "i8"@,
        "i16"@,
        "i32"@,
        "i64"@,
        "i128"@,
        "u8"@,
        "u16"@,
        "u32"@,
        "u64"@,
        "u128"@,
        "f32"@,
        "f64"@,
        "bool"@,
        "usize"@,
        "isize"@,
        "serde_json::Value"@,
        "Json<serde_json::Value>"@,
    ]
}

/// Whether the text `v` is one of `names`.
pub fn is_one_of(v: &[char], names: &[&str]) -> (r: bool)
    ensures
        r == names@.map_values(|s: &str| s@).contains(v@),
{
    let ghost nv = names@.map_values(|s: &str| s@);
    let mut i: usize = 0;
    while i < names.len()
        invariant
            i <= names@.len(),
            nv == names@.map_values(|s: &str| s@),
            forall|k: int| 0 <= k < i ==> nv[k] != v@,
        decreases names@.len() - i,
    {
        let n = chars_of(names[i]);
        if chars_eq(n.as_slice(), v) {
            assert(nv[i as int] == v@);
            return true;
        }
        i = i + 1;
    }
    false
}

/// Whether a type name is a Rust primitive or standard type.
pub fn is_primitive_type_name(name: &str) -> (r: bool)
    ensures
        r == primitive_type_names().contains(name@),
{
    let names: [&str; 20] = [
        "()",
        "String",
        "str",
        "i8",
        "i16",
        "i32",
        "i64",
        "i128",
        "u8",
        "u16",
        "u32",
        "u64",
        "u128",
        "f32",
        "f64",
        "bool",
        "usize",
        "isize",
        "serde_json::Value",
        "Json<serde_json::Value>",
    ];
    let v = chars_of(name);
    let r = is_one_of(v.as_slice(), names.as_slice());
    assert(names@.map_values(|s: &str| s@) =~= primitive_type_names());
    r
}

// ---------------------------------------------------------------------------
// First generic argument
// ---------------------------------------------------------------------------

/// Scans `s` from position `i` at nesting depth `depth` and returns the index
/// of the `>` or `,` that ends the current argument at depth zero, or `-1`
/// when there is none.
pub open spec fn arg_end(s: Seq<char>, i: int, depth: int) -> int
    decreases s.len() - i,
{
    if i < 0 || i >= s.len() {
        -1
    } else if s[i] == '<' {
        arg_end(s, i + 1, depth + 1)
    } else if s[i] == '>' && depth == 0 {
        i
    } else if s[i] == '>' {
        arg_end(s, i + 1, depth - 1)
    } else if s[i] == ',' && depth == 0 {
        i
    } else {
        arg_end(s, i + 1, depth)
    }
}

/// The first generic argument of `Wrapper<T, ...>`, trimmed; `None` when
/// there is no `<` or the argument is empty or unterminated.
pub open spec fn first_type_arg(s: Seq<char>) -> Option<Seq<char>> {
    match first_index_of(s, '<') {
        None => None,
        Some(k) => {
            let start = k + 1;
            let e = arg_end(s, start, 0);
            if e > start {
                Some(trim(s.subrange(start, e)))
            } else {
                None
            }
        },
    }
}

pub proof fn lemma_arg_end_range(s: Seq<char>, i: int, depth: int)
    ensures
        arg_end(s, i, depth) == -1 || (i <= arg_end(s, i, depth) < s.len()),
    decreases s.len() - i,
{
    if 0 <= i < s.len() {
        if s[i] == '<' {
            lemma_arg_end_range(s, i + 1, depth + 1);
        } else if s[i] == '>' && depth == 0 {
        } else if s[i] == '>' {
            lemma_arg_end_range(s, i + 1, depth - 1);
        } else if s[i] == ',' && depth == 0 {
        } else {
            lemma_arg_end_range(s, i + 1, depth);
        }
    }
}

pub proof fn lemma_trim_len(s: Seq<char>)
    ensures
        trim(s).len() <= s.len(),
{
    lemma_trim_start_len(s);
    lemma_trim_end_len(trim_start(s));
}

pub proof fn lemma_trim_start_len(s: Seq<char>)
    ensures
        trim_start(s).len() <= s.len(),
    decreases s.len(),
{
    if s.len() > 0 && is_ws(s[0]) {
        lemma_trim_start_len(s.drop_first());
    }
}

pub proof fn lemma_trim_end_len(s: Seq<char>)
    ensures
        trim_end(s).len() <= s.len(),
    decreases s.len(),
{
    if s.len() > 0 && is_ws(s.last()) {
        lemma_trim_end_len(s.drop_last());
    }
}

/// The first generic argument is shorter than the whole type.
pub proof fn lemma_first_type_arg_shorter(s: Seq<char>)
    ensures
        first_type_arg(s) matches Some(a) ==> a.len() < s.len(),
{
    lemma_first_index_of(s, '<');
    if let Some(k) = first_index_of(s, '<') {
        lemma_arg_end_range(s, k + 1, 0);
        let e = arg_end(s, k + 1, 0);
        if e > k + 1 {
            lemma_trim_len(s.subrange(k + 1, e));
        }
    }
}

/// Index of the end of the first generic argument starting at `start`.
fn arg_end_exec(v: &[char], start: usize) -> (r: Option<usize>)
    requires
        start <= v@.len(),
    ensures
        match r {
            Some(e) => arg_end(v@, start as int, 0) == e as int,
            None => arg_end(v@, start as int, 0) == -1,
        },
{
    let mut depth: usize = 0;
    let mut i = start;
    while i < v.len()
        invariant
            start <= i <= v@.len(),
            depth <= i - start,
            arg_end(v@, start as int, 0) == arg_end(v@, i as int, depth as int),
        decreases v@.len() - i,
    {
        let c = v[i];
        if c == '<' {
            depth = depth + 1;
        } else if c == '>' && depth == 0 {
            return Some(i);
        } else if c == '>' {
            depth = depth - 1;
        } else if c == ',' && depth == 0 {
            return Some(i);
        }
        i = i + 1;
    }
    None
}

/// The first generic argument of the type text `v`.
pub fn first_type_arg_chars(v: &[char]) -> (r: Option<Vec<char>>)
    ensures
        match r {
            Some(a) => first_type_arg(v@) == Some(a@),
            None => first_type_arg(v@) is None,
        },
{
    match find_char(v, '<') {
        None => None,
        Some(k) => {
            proof {
                lemma_first_index_of(v@, '<');
                lemma_arg_end_range(v@, k + 1, 0);
            }
            let n = v.len();
            assert(k < n);
            let start = k + 1;
            match arg_end_exec(v, start) {
                None => None,
                Some(e) => {
                    if e > start {
                        let inner = slice_chars(v, start, e);
                        Some(trim_chars(inner.as_slice()))
                    } else {
                        None
                    }
                },
            }
        },
    }
}

/// Extract the first generic argument from a type string.
///
/// `"Result<Json<Planet>, E>"` gives `"Json<Planet>"`; a type without
/// generics gives `None`.
pub fn extract_first_generic_arg_string(type_str: &str) -> (r: Option<String>)
    ensures
        match r {
            Some(a) => first_type_arg(type_str@) == Some(a@),
            None => first_type_arg(type_str@) is None,
        },
{
    let v = chars_of(type_str);
    match first_type_arg_chars(v.as_slice()) {
        Some(a) => Some(string_of(a.as_slice())),
        None => None,
    }
}

} // verus!
