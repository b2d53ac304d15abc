//! Identifier case conversions: serde `rename_all` rules, SCREAMING_SNAKE_CASE
//! error codes, and TypeScript object keys.

use crate::text::{
    ascii_lower, ascii_lower_exec, ascii_upper, ascii_upper_exec, chars_of, eq_str, lower_all,
    replace_char, string_of, upper_all,
};
use vstd::prelude::*;

verus! {

// ---------------------------------------------------------------------------
// Character classes
// ---------------------------------------------------------------------------

/// What `char::is_uppercase` returns for `c` (the Unicode `Uppercase`
/// property).
pub uninterp spec fn unicode_uppercase(c: char) -> bool;

/// `char::is_uppercase`: whether `c` has the Unicode `Uppercase` property.
/// The contract names the result; of ASCII letters it states what the
/// documentation shows (`A`..`Z` are uppercase, `a`..`z` are not) and of
/// other characters nothing.
#[verifier::external_body]
pub(crate) fn char_is_uppercase(c: char) -> (r: bool)
    ensures
        r == unicode_uppercase(c),
        'A' <= c && c <= 'Z' ==> r,
        'a' <= c && c <= 'z' ==> !r,
{
    c.is_uppercase()
}

/// An ASCII lowercase letter.
pub open spec fn is_ascii_lower(c: char) -> bool {
    'a' <= c && c <= 'z'
}

/// An ASCII letter.
pub open spec fn is_ascii_alpha(c: char) -> bool {
    ('a' <= c && c <= 'z') || ('A' <= c && c <= 'Z')
}

/// An ASCII letter or digit.
pub open spec fn is_ascii_alnum(c: char) -> bool {
    is_ascii_alpha(c) || ('0' <= c && c <= '9')
}

// ---------------------------------------------------------------------------
// snake_case and rename rules
// ---------------------------------------------------------------------------

/// snake_case of `s`: an `_` before every uppercase character but the
/// first, and every character ASCII-lowercased.
pub open spec fn snake(s: Seq<char>) -> Seq<char>
    decreases s.len(),
{
    if s.len() == 0 {
        Seq::empty()
    } else {
        let sep = if s.len() > 1 && unicode_uppercase(s.last()) {
            seq!['_']
        } else {
            Seq::empty()
        };
        snake(s.drop_last()) + sep + seq![ascii_lower(s.last())]
    }
}

/// `s` with its first character ASCII-lowercased.
pub open spec fn lower_first(s: Seq<char>) -> Seq<char> {
    if s.len() == 0 {
        Seq::empty()
    } else {
        seq![ascii_lower(s[0])] + s.drop_first()
    }
}

/// The result of a serde `rename_all` rule on `name`; unknown rules leave
/// the name unchanged.
pub open spec fn renamed(rule: Seq<char>, name: Seq<char>) -> Seq<char> {
    if rule == "lowercase"@ {
        lower_all(name)
    } else if rule == "UPPERCASE"@ {
        upper_all(name)
    } else if rule == "camelCase"@ {
        lower_first(name)
    } else if rule == "snake_case"@ {
        snake(name)
    } else if rule == "SCREAMING_SNAKE_CASE"@ {
        upper_all(snake(name))
    } else if rule == "kebab-case"@ {
        replace_char(snake(name), '_', '-')
    } else if rule == "SCREAMING-KEBAB-CASE"@ {
        replace_char(upper_all(snake(name)), '_', '-')
    } else {
        name
    }
}

fn snake_chars(v: &[char]) -> (r: Vec<char>)
    ensures
        r@ == snake(v@),
{
    let mut out: Vec<char> = Vec::new();
    let mut i: usize = 0;
    assert(v@.take(0) =~= Seq::<char>::empty());
    while i < v.len()
        invariant
            i <= v@.len(),
            out@ == snake(v@.take(i as int)),
        decreases v@.len() - i,
    {
        let c = v[i];
        let ghost t = v@.take(i + 1);
        assert(t.drop_last() =~= v@.take(i as int));
        assert(t.last() == c);
        let ghost before = out@;
        if i > 0 && char_is_uppercase(c) {
            out.push('_');
        }
        out.push(ascii_lower_exec(c));
        assert(out@ =~= before + (if t.len() > 1 && unicode_uppercase(c) {
            seq!['_']
        } else {
            Seq::empty()
        }) + seq![ascii_lower(c)]);
        i = i + 1;
    }
    assert(v@.take(v@.len() as int) =~= v@);
    out
}

/// The characters of `v`, mapped by ASCII upper-casing (`up`) or
/// lower-casing.
fn map_case(v: &[char], up: bool) -> (r: Vec<char>)
    ensures
        r@ == (if up {
            upper_all(v@)
        } else {
            lower_all(v@)
        }),
{
    let mut out: Vec<char> = Vec::new();
    let mut i: usize = 0;
    while i < v.len()
        invariant
            i <= v@.len(),
            out@ =~= (if up {
                upper_all(v@.take(i as int))
            } else {
                lower_all(v@.take(i as int))
            }),
        decreases v@.len() - i,
    {
        if up {
            out.push(ascii_upper_exec(v[i]));
        } else {
            out.push(ascii_lower_exec(v[i]));
        }
        i = i + 1;
    }
    assert(v@.take(v@.len() as int) =~= v@);
    out
}

fn replace_char_chars(v: &[char], from: char, to: char) -> (r: Vec<char>)
    ensures
        r@ == replace_char(v@, from, to),
{
    let mut out: Vec<char> = Vec::new();
    let mut i: usize = 0;
    while i < v.len()
        invariant
            i <= v@.len(),
            out@ =~= replace_char(v@.take(i as int), from, to),
        decreases v@.len() - i,
    {
        if v[i] == from {
            out.push(to);
        } else {
            out.push(v[i]);
        }
        i = i + 1;
    }
    assert(v@.take(v@.len() as int) =~= v@);
    out
}

/// Apply a `#[serde(rename_all = "...")]` rule to a variant or field name.
///
/// Unknown rules pass through unchanged (serde rejects them itself).
pub fn apply_rename_rule(rule: &str, name: &str) -> (r: String)
    ensures
        r@ == renamed(rule@, name@),
{
    let v = chars_of(name);
    let rv = chars_of(rule);
    let rs = rv.as_slice();
    let out = if eq_str(rs, "lowercase") {
        map_case(v.as_slice(), false)
    } else if eq_str(rs, "UPPERCASE") {
        map_case(v.as_slice(), true)
    } else if eq_str(rs, "camelCase") {
        let mut o: Vec<char> = Vec::new();
        if v.len() > 0 {
            o.push(ascii_lower_exec(v[0]));
            let mut i: usize = 1;
            while i < v.len()
                invariant
                    1 <= i <= v@.len(),
                    o@ =~= seq![ascii_lower(v@[0])] + v@.subrange(1, i as int),
                decreases v@.len() - i,
            {
                o.push(v[i]);
                i = i + 1;
            }
        }
        assert(o@ =~= lower_first(v@));
        o
    } else if eq_str(rs, "snake_case") {
        snake_chars(v.as_slice())
    } else if eq_str(rs, "SCREAMING_SNAKE_CASE") {
        let s = snake_chars(v.as_slice());
        map_case(s.as_slice(), true)
    } else if eq_str(rs, "kebab-case") {
        let s = snake_chars(v.as_slice());
        replace_char_chars(s.as_slice(), '_', '-')
    } else if eq_str(rs, "SCREAMING-KEBAB-CASE") {
        let s = snake_chars(v.as_slice());
        let u = map_case(s.as_slice(), true);
        replace_char_chars(u.as_slice(), '_', '-')
    } else {
        v
    };
    string_of(out.as_slice())
}

// ---------------------------------------------------------------------------
// SCREAMING_SNAKE_CASE error codes
// ---------------------------------------------------------------------------

/// `PascalCase` to `SCREAMING_SNAKE_CASE`: an `_` before each uppercase
/// character that follows an ASCII lowercase letter, and every character
/// ASCII-uppercased.
pub open spec fn screaming_snake(s: Seq<char>) -> Seq<char>
    decreases s.len(),
{
    if s.len() == 0 {
        Seq::empty()
    } else {
        let c = s.last();
        let sep = if s.len() > 1 && unicode_uppercase(c) && is_ascii_lower(s[s.len() - 2]) {
            seq!['_']
        } else {
            Seq::empty()
        };
        screaming_snake(s.drop_last()) + sep + seq![ascii_upper(c)]
    }
}

/// Convert `PascalCase` to `SCREAMING_SNAKE_CASE`.
pub fn to_screaming_snake_case(name: &str) -> (r: String)
    ensures
        r@ == screaming_snake(name@),
{
    let v = chars_of(name);
    let mut out: Vec<char> = Vec::new();
    let mut prev_lower = false;
    let mut i: usize = 0;
    assert(v@.take(0) =~= Seq::<char>::empty());
    while i < v.len()
        invariant
            i <= v@.len(),
            v@ == name@,
            out@ == screaming_snake(v@.take(i as int)),
            prev_lower == (i > 0 && is_ascii_lower(v@[i - 1])),
        decreases v@.len() - i,
    {
        let c = v[i];
        let ghost t = v@.take(i + 1);
        assert(t.drop_last() =~= v@.take(i as int));
        assert(t.last() == c);
        if i > 0 {
            assert(t[t.len() - 2] == v@[i - 1]);
        }
        let ghost before = out@;
        if char_is_uppercase(c) && i > 0 && prev_lower {
            out.push('_');
        }
        out.push(ascii_upper_exec(c));
        prev_lower = 'a' <= c && c <= 'z';
        assert(out@ =~= before + (if t.len() > 1 && unicode_uppercase(c) && is_ascii_lower(
            t[t.len() - 2],
        ) {
            seq!['_']
        } else {
            Seq::empty()
        }) + seq![ascii_upper(c)]);
        i = i + 1;
    }
    assert(v@.take(v@.len() as int) =~= v@);
    string_of(out.as_slice())
}

// ---------------------------------------------------------------------------
// TypeScript object keys
// ---------------------------------------------------------------------------

/// `name` can stand unquoted as a TypeScript object key.
pub open spec fn is_plain_key(name: Seq<char>) -> bool {
    name.len() > 0 && (is_ascii_alpha(name[0]) || name[0] == '_' || name[0] == '$') && forall|
        i: int,
    |
        0 <= i < name.len() ==> (is_ascii_alnum(#[trigger] name[i]) || name[i] == '_' || name[i]
            == '$')
}

/// `s` with `\` and `"` escaped by a backslash.
pub open spec fn escaped(s: Seq<char>) -> Seq<char>
    decreases s.len(),
{
    if s.len() == 0 {
        Seq::empty()
    } else {
        let c = s.last();
        escaped(s.drop_last()) + if c == '\\' || c == '"' {
            seq!['\\', c]
        } else {
            seq![c]
        }
    }
}

/// Escape backslashes and double quotes for a TypeScript string literal.
pub fn escape_str(s: &str) -> (r: String)
    ensures
        r@ == escaped(s@),
{
    let v = chars_of(s);
    let mut out: Vec<char> = Vec::new();
    let mut i: usize = 0;
    assert(v@.take(0) =~= Seq::<char>::empty());
    while i < v.len()
        invariant
            i <= v@.len(),
            v@ == s@,
            out@ == escaped(v@.take(i as int)),
        decreases v@.len() - i,
    {
        let c = v[i];
        assert(v@.take(i + 1).drop_last() =~= v@.take(i as int));
        let ghost before = out@;
        if c == '\\' || c == '"' {
            out.push('\\');
        }
        out.push(c);
        assert(out@ =~= before + if c == '\\' || c == '"' {
            seq!['\\', c]
        } else {
            seq![c]
        });
        i = i + 1;
    }
    assert(v@.take(v@.len() as int) =~= v@);
    string_of(out.as_slice())
}

/// A field name as a TypeScript object key: bare when it is a plain
/// identifier, else a quoted, escaped string.
pub open spec fn object_key(name: Seq<char>) -> Seq<char> {
    if is_plain_key(name) {
        name
    } else {
        seq!['"'] + escaped(name) + seq!['"']
    }
}

/// Render a field name as a TypeScript object key.
pub fn ts_object_key(name: &str) -> (r: String)
    ensures
        r@ == object_key(name@),
{
    let v = chars_of(name);
    let mut valid = v.len() > 0 && (('a' <= v[0] && v[0] <= 'z') || ('A' <= v[0] && v[0] <= 'Z')
        || v[0] == '_' || v[0] == '$');
    let mut i: usize = 0;
    while i < v.len()
        invariant
            i <= v@.len(),
            v@ == name@,
            valid ==> forall|k: int|
                0 <= k < i ==> (is_ascii_alnum(#[trigger] v@[k]) || v@[k] == '_' || v@[k] == '$'),
            !valid ==> !is_plain_key(v@),
            valid ==> (v@.len() > 0 && (is_ascii_alpha(v@[0]) || v@[0] == '_' || v@[0] == '$')),
        decreases v@.len() - i,
    {
        let c = v[i];
        if !(('a' <= c && c <= 'z') || ('A' <= c && c <= 'Z') || ('0' <= c && c <= '9') || c == '_'
            || c == '$') {
            valid = false;
        }
        i = i + 1;
    }
    if valid {
        string_of(v.as_slice())
    } else {
        let e = escape_str(name);
        let ev = chars_of(e.as_str());
        let mut out: Vec<char> = Vec::new();
        out.push('"');
        let mut j: usize = 0;
        while j < ev.len()
            invariant
                j <= ev@.len(),
                out@ =~= seq!['"'] + ev@.take(j as int),
            decreases ev@.len() - j,
        {
            out.push(ev[j]);
            j = j + 1;
        }
        out.push('"');
        assert(ev@.take(ev@.len() as int) =~= ev@);
        string_of(out.as_slice())
    }
}

} // verus!
