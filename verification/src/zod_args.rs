//! The `#[zod(..)]` field attribute: its `key` / `key = value` arguments
//! read into validation rules.

use crate::text::eq_str;
use crate::zod_derive::{empty_rules, ZodRules};
use vstd::prelude::*;

verus! {

/// The value of one `#[zod(..)]` argument.
pub enum ZodArg {
    /// No value: `email`.
    Flag,
    /// A string literal: `starts_with = "a"`.
    Text(String),
    /// A numeric literal: whether it is an integer literal, its value as a
    /// count when it is an integer that fits a `usize`, and its text as
    /// written in a schema.
    Number { count: Option<usize>, integer: bool, bound: String },
    /// Any other value.
    Other,
}

/// Why the `#[zod(..)]` arguments were refused.
#[derive(Debug, PartialEq, Eq)]
pub enum ZodArgFault {
    /// The key of the argument at this position is not a known key.
    UnknownKey(usize),
    /// The value of the argument at this position is not of its key's kind.
    WrongValue(usize),
}

/// The keys `#[zod(..)]` accepts.
pub open spec fn zod_keys_spec() -> Seq<Seq<char>> {
    seq![
        "min"@,
        "max"@,
        "length"@,
        "min_length"@,
        "max_length"@,
        "starts_with"@,
        "ends_with"@,
        "includes"@,
        "regex"@,
        "email"@,
        "url"@,
        "int"@,
        "positive"@,
        "negative"@,
        "nonnegative"@,
        "nonpositive"@,
        "finite"@,
    ]
}

/// The keys `#[zod(..)]` accepts, as reported in an unknown-key error.
pub fn zod_keys() -> (r: &'static [&'static str])
    ensures
        r@.map_values(|k: &str| k@) == zod_keys_spec(),
{
    let r: &'static [&'static str] = &[
        "min",
        "max",
        "length",
        "min_length",
        "max_length",
        "starts_with",
        "ends_with",
        "includes",
        "regex",
        "email",
        "url",
        "int",
        "positive",
        "negative",
        "nonnegative",
        "nonpositive",
        "finite",
    ];
    assert(r@.map_values(|k: &str| k@) =~= zod_keys_spec());
    r
}

/// The rules after one argument: the key's rule set from its value, or
/// none when the value is not of the key's kind. `min` and `max` take a
/// number (kept as its text); `length`, `min_length` and `max_length` a
/// count; `starts_with`, `ends_with`, `includes` and `regex` a string; the
/// other keys no value.
pub open spec fn apply_zod_arg(r: ZodRules, k: Seq<char>, a: ZodArg) -> Option<ZodRules> {
    if k == "min"@ {
        match a {
            ZodArg::Number { bound, .. } => Some(ZodRules { min: Some(bound), ..r }),
            _ => None,
        }
    } else if k == "max"@ {
        match a {
            ZodArg::Number { bound, .. } => Some(ZodRules { max: Some(bound), ..r }),
            _ => None,
        }
    } else if k == "length"@ {
        match a {
            ZodArg::Number { count: Some(n), .. } => Some(ZodRules { length: Some(n), ..r }),
            _ => None,
        }
    } else if k == "min_length"@ {
        match a {
            ZodArg::Number { count: Some(n), .. } => Some(ZodRules { min_length: Some(n), ..r }),
            _ => None,
        }
    } else if k == "max_length"@ {
        match a {
            ZodArg::Number { count: Some(n), .. } => Some(ZodRules { max_length: Some(n), ..r }),
            _ => None,
        }
    } else if k == "starts_with"@ {
        match a {
            ZodArg::Text(s) => Some(ZodRules { starts_with: Some(s), ..r }),
            _ => None,
        }
    } else if k == "ends_with"@ {
        match a {
            ZodArg::Text(s) => Some(ZodRules { ends_with: Some(s), ..r }),
            _ => None,
        }
    } else if k == "includes"@ {
        match a {
            ZodArg::Text(s) => Some(ZodRules { includes: Some(s), ..r }),
            _ => None,
        }
    } else if k == "regex"@ {
        match a {
            ZodArg::Text(s) => Some(ZodRules { regex: Some(s), ..r }),
            _ => None,
        }
    } else if a is Flag {
        if k == "email"@ {
            Some(ZodRules { email: true, ..r })
        } else if k == "url"@ {
            Some(ZodRules { url: true, ..r })
        } else if k == "int"@ {
            Some(ZodRules { int: true, ..r })
        } else if k == "positive"@ {
            Some(ZodRules { positive: true, ..r })
        } else if k == "negative"@ {
            Some(ZodRules { negative: true, ..r })
        } else if k == "nonnegative"@ {
            Some(ZodRules { nonnegative: true, ..r })
        } else if k == "nonpositive"@ {
            Some(ZodRules { nonpositive: true, ..r })
        } else {
            Some(ZodRules { finite: true, ..r })
        }
    } else {
        None
    }
}

/// The outcome of reading the arguments in order from no rules: the first
/// argument with an unknown key or a value of the wrong kind, or the rules
/// every argument set (a repeated key keeps its last value).
pub open spec fn read_zod_args(args: Seq<(String, ZodArg)>) -> Result<ZodRules, ZodArgFault>
    decreases args.len(),
{
    if args.len() == 0 {
        Ok(empty_rules())
    } else {
        match read_zod_args(args.drop_last()) {
            Err(e) => Err(e),
            Ok(r) => {
                let i = (args.len() - 1) as usize;
                let (k, a) = args.last();
                if !zod_keys_spec().contains(k@) {
                    Err(ZodArgFault::UnknownKey(i))
                } else {
                    match apply_zod_arg(r, k@, a) {
                        Some(r2) => Ok(r2),
                        None => Err(ZodArgFault::WrongValue(i)),
                    }
                }
            },
        }
    }
}

/// Once refused, the reading stays refused with the same fault.
proof fn lemma_read_zod_args_err(args: Seq<(String, ZodArg)>, n: int)
    requires
        0 <= n <= args.len(),
        read_zod_args(args.take(n)) is Err,
    ensures
        read_zod_args(args) == read_zod_args(args.take(n)),
    decreases args.len() - n,
{
    if n < args.len() {
        assert(args.take(n + 1).drop_last() =~= args.take(n));
        lemma_read_zod_args_err(args, n + 1);
    } else {
        assert(args.take(n) =~= args);
    }
}

/// The rules after one argument with a known key.
fn apply_arg(r: ZodRules, k: &str, a: ZodArg) -> (out: Option<ZodRules>)
    requires
        zod_keys_spec().contains(k@),
    ensures
        out == apply_zod_arg(r, k@, a),
{
    let kv = crate::text::chars_of(k);
    let key = kv.as_slice();
    if eq_str(key, "min") {
        match a {
            ZodArg::Number { bound, .. } => Some(ZodRules { min: Some(bound), ..r }),
            _ => None,
        }
    } else if eq_str(key, "max") {
        match a {
            ZodArg::Number { bound, .. } => Some(ZodRules { max: Some(bound), ..r }),
            _ => None,
        }
    } else if eq_str(key, "length") {
        match a {
            ZodArg::Number { count: Some(n), .. } => Some(ZodRules { length: Some(n), ..r }),
            _ => None,
        }
    } else if eq_str(key, "min_length") {
        match a {
            ZodArg::Number { count: Some(n), .. } => Some(ZodRules { min_length: Some(n), ..r }),
            _ => None,
        }
    } else if eq_str(key, "max_length") {
        match a {
            ZodArg::Number { count: Some(n), .. } => Some(ZodRules { max_length: Some(n), ..r }),
            _ => None,
        }
    } else if eq_str(key, "starts_with") {
        match a {
            ZodArg::Text(s) => Some(ZodRules { starts_with: Some(s), ..r }),
            _ => None,
        }
    } else if eq_str(key, "ends_with") {
        match a {
            ZodArg::Text(s) => Some(ZodRules { ends_with: Some(s), ..r }),
            _ => None,
        }
    } else if eq_str(key, "includes") {
        match a {
            ZodArg::Text(s) => Some(ZodRules { includes: Some(s), ..r }),
            _ => None,
        }
    } else if eq_str(key, "regex") {
        match a {
            ZodArg::Text(s) => Some(ZodRules { regex: Some(s), ..r }),
            _ => None,
        }
    } else {
        match a {
            ZodArg::Flag => {
                if eq_str(key, "email") {
                    Some(ZodRules { email: true, ..r })
                } else if eq_str(key, "url") {
                    Some(ZodRules { url: true, ..r })
                } else if eq_str(key, "int") {
                    Some(ZodRules { int: true, ..r })
                } else if eq_str(key, "positive") {
                    Some(ZodRules { positive: true, ..r })
                } else if eq_str(key, "negative") {
                    Some(ZodRules { negative: true, ..r })
                } else if eq_str(key, "nonnegative") {
                    Some(ZodRules { nonnegative: true, ..r })
                } else if eq_str(key, "nonpositive") {
                    Some(ZodRules { nonpositive: true, ..r })
                } else {
                    Some(ZodRules { finite: true, ..r })
                }
            },
            _ => None,
        }
    }
}

/// Read the rules of `#[zod(..)]` from its arguments, in order (those of
/// several `#[zod(..)]` attributes one after another).
pub fn zod_rules_from_args(args: Vec<(String, ZodArg)>) -> (r: Result<ZodRules, ZodArgFault>)
    ensures
        r == read_zod_args(args@),
{
    let ghost orig = args@;
    let n = args.len();
    let mut rest = args;
    let mut rules = ZodRules::none();
    let mut i: usize = 0;
    assert(orig.take(0) =~= Seq::<(String, ZodArg)>::empty());
    assert(orig.skip(0) =~= orig);
    while rest.len() > 0
        invariant
            orig == args@,
            orig.len() == n,
            i <= orig.len(),
            rest@ == orig.skip(i as int),
            read_zod_args(orig.take(i as int)) == Ok::<ZodRules, ZodArgFault>(rules),
        decreases rest@.len(),
    {
        let ghost cur = rest@;
        let (key, arg) = rest.remove(0);
        let ghost pair = (key, arg);
        assert(orig.take(i + 1).drop_last() =~= orig.take(i as int));
        assert(cur[0] == orig[i as int]);
        assert(orig.take(i + 1).last() == orig[i as int]);
        assert(pair == orig[i as int]);
        assert(rest@ =~= orig.skip(i + 1));
        let keys = zod_keys();
        let kv = crate::text::chars_of(key.as_str());
        if !crate::types::is_one_of(kv.as_slice(), keys) {
            proof {
                assert(!zod_keys_spec().contains(key@));
                assert(read_zod_args(orig.take(i + 1)) == Err::<ZodRules, ZodArgFault>(ZodArgFault::UnknownKey(i)));
                lemma_read_zod_args_err(orig, i + 1);
            }
            return Err(ZodArgFault::UnknownKey(i));
        }
        match apply_arg(rules, key.as_str(), arg) {
            Some(r2) => {
                rules = r2;
            },
            None => {
                proof {
                    assert(read_zod_args(orig.take(i + 1)) == Err::<ZodRules, ZodArgFault>(ZodArgFault::WrongValue(i)));
                    lemma_read_zod_args_err(orig, i + 1);
                }
                return Err(ZodArgFault::WrongValue(i));
            },
        }
        i = i + 1;
    }
    assert(orig.take(i as int) =~= orig);
    Ok(rules)
}

/// The message for a value of the wrong kind, by the argument's key and
/// value: a bound without a value or with a value that is no numeric
/// literal; a count without a value, with a value that is no integer
/// literal, or with one too large; a string without a value or with a
/// value that is no string literal; a flag given a value.
pub open spec fn wrong_value_text(k: Seq<char>, a: ZodArg) -> Seq<char> {
    if k == "min"@ || k == "max"@ {
        if a is Flag {
            "expected `= <number>` or `(<number>)`"@
        } else {
            "expected a numeric literal"@
        }
    } else if k == "length"@ || k == "min_length"@ || k == "max_length"@ {
        match a {
            ZodArg::Flag => "expected `= <integer>` or `(<integer>)`"@,
            ZodArg::Number { integer: true, .. } => "number too large to fit in target type"@,
            _ => "expected integer literal"@,
        }
    } else if k == "starts_with"@ || k == "ends_with"@ || k == "includes"@ || k == "regex"@ {
        if a is Flag {
            "expected `= \"value\"` or `(\"value\")`"@
        } else {
            "expected string literal"@
        }
    } else {
        "expected `,`"@
    }
}

/// What a value of the wrong kind is reported as.
pub fn wrong_value_message(key: &str, arg: &ZodArg) -> (r: &'static str)
    ensures
        r@ == wrong_value_text(key@, *arg),
{
    let kv = crate::text::chars_of(key);
    let k = kv.as_slice();
    let is_flag = match arg {
        ZodArg::Flag => true,
        _ => false,
    };
    if eq_str(k, "min") || eq_str(k, "max") {
        if is_flag {
            "expected `= <number>` or `(<number>)`"
        } else {
            "expected a numeric literal"
        }
    } else if eq_str(k, "length") || eq_str(k, "min_length") || eq_str(k, "max_length") {
        match arg {
            ZodArg::Flag => "expected `= <integer>` or `(<integer>)`",
            ZodArg::Number { integer: true, .. } => "number too large to fit in target type",
            _ => "expected integer literal",
        }
    } else if eq_str(k, "starts_with") || eq_str(k, "ends_with") || eq_str(k, "includes") || eq_str(
        k,
        "regex",
    ) {
        if is_flag {
            "expected `= \"value\"` or `(\"value\")`"
        } else {
            "expected string literal"
        }
    } else {
        "expected `,`"
    }
}

} // verus!
