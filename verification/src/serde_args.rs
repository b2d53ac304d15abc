//! The `#[serde(..)]` keys that schema generation reads: which value each
//! key takes, and the attributes the keys give.

use crate::text::{chars_of, eq_str};
use crate::zod_derive::SerdeAttrs;
use vstd::prelude::*;

verus! {

/// The value a `#[serde(..)]` key takes.
#[derive(Debug, PartialEq, Eq, Structural)]
pub enum SerdeShape {
    /// `rename = "x"` or `rename(serialize = "a", deserialize = "b")`.
    Rename,
    /// `= "x"` or `("x")`.
    Text,
    /// No value (`skip`, `skip_serializing`).
    NoValue,
    /// No value, or `= expr` that is not read (`default`).
    OptionalExpr,
    /// Any value, not read (every other key).
    Ignored,
}

/// The value each key takes.
pub open spec fn shape_of(k: Seq<char>) -> SerdeShape {
    if k == "rename"@ {
        SerdeShape::Rename
    } else if k == "rename_all"@ {
        SerdeShape::Text
    } else if k == "skip"@ || k == "skip_serializing"@ {
        SerdeShape::NoValue
    } else if k == "default"@ {
        SerdeShape::OptionalExpr
    } else {
        SerdeShape::Ignored
    }
}

/// The value the key `key` takes.
pub fn serde_shape(key: &str) -> (r: SerdeShape)
    ensures
        r == shape_of(key@),
{
    let v = chars_of(key);
    let k = v.as_slice();
    if eq_str(k, "rename") {
        SerdeShape::Rename
    } else if eq_str(k, "rename_all") {
        SerdeShape::Text
    } else if eq_str(k, "skip") || eq_str(k, "skip_serializing") {
        SerdeShape::NoValue
    } else if eq_str(k, "default") {
        SerdeShape::OptionalExpr
    } else {
        SerdeShape::Ignored
    }
}

/// A key's value as read by its shape.
pub enum SerdeValue {
    /// A string.
    Text(String),
    /// The `serialize` and `deserialize` names of `rename(..)` (the last of
    /// each given).
    Renames { serialize: Option<String>, deserialize: Option<String> },
    /// No value read.
    Nothing,
}

/// The attributes as plain values: rename, rename_all, skip, default.
pub type SerdeView = (Option<Seq<char>>, Option<Seq<char>>, bool, bool);

/// The view of serde attributes.
pub open spec fn serde_view(a: SerdeAttrs) -> SerdeView {
    (
        match a.rename {
            Some(s) => Some(s@),
            None => None,
        },
        match a.rename_all {
            Some(s) => Some(s@),
            None => None,
        },
        a.skip,
        a.default,
    )
}

/// The text a value names: a string, or of `rename(..)` the
/// `deserialize` name, else the `serialize` name, else the empty text.
pub open spec fn value_text(v: SerdeValue) -> Seq<char> {
    match v {
        SerdeValue::Text(s) => s@,
        SerdeValue::Renames { serialize, deserialize } => match deserialize {
            Some(d) => d@,
            None => match serialize {
                Some(s) => s@,
                None => Seq::empty(),
            },
        },
        SerdeValue::Nothing => Seq::empty(),
    }
}

/// The attributes after one key: `rename` and `rename_all` set their
/// name, `skip` and `skip_serializing` set skip, `default` sets default;
/// other keys change nothing.
pub open spec fn apply_serde(a: SerdeView, k: Seq<char>, v: SerdeValue) -> SerdeView {
    if k == "rename"@ {
        (Some(value_text(v)), a.1, a.2, a.3)
    } else if k == "rename_all"@ {
        (a.0, Some(value_text(v)), a.2, a.3)
    } else if k == "skip"@ || k == "skip_serializing"@ {
        (a.0, a.1, true, a.3)
    } else if k == "default"@ {
        (a.0, a.1, a.2, true)
    } else {
        a
    }
}

/// The attributes of the keys, read in order from none.
pub open spec fn read_serde_args(args: Seq<(String, SerdeValue)>) -> SerdeView
    decreases args.len(),
{
    if args.len() == 0 {
        (None, None, false, false)
    } else {
        apply_serde(read_serde_args(args.drop_last()), args.last().0@, args.last().1)
    }
}

fn value_string(v: SerdeValue) -> (r: String)
    ensures
        r@ == value_text(v),
{
    match v {
        SerdeValue::Text(s) => s,
        SerdeValue::Renames { serialize, deserialize } => match deserialize {
            Some(d) => d,
            None => match serialize {
                Some(s) => s,
                None => String::new(),
            },
        },
        SerdeValue::Nothing => String::new(),
    }
}

/// The serde attributes of the keys, in order (those of several
/// `#[serde(..)]` attributes one after another).
pub fn serde_attrs_from_args(args: Vec<(String, SerdeValue)>) -> (r: SerdeAttrs)
    ensures
        serde_view(r) == read_serde_args(args@),
{
    let ghost orig = args@;
    let n = args.len();
    let mut rest = args;
    let mut out = SerdeAttrs { rename: None, rename_all: None, skip: false, default: false };
    let mut i: usize = 0;
    assert(orig.take(0) =~= Seq::<(String, SerdeValue)>::empty());
    assert(orig.skip(0) =~= orig);
    while rest.len() > 0
        invariant
            orig == args@,
            orig.len() == n,
            i <= orig.len(),
            rest@ == orig.skip(i as int),
            serde_view(out) == read_serde_args(orig.take(i as int)),
        decreases rest@.len(),
    {
        let ghost cur = rest@;
        let (key, value) = rest.remove(0);
        let ghost pair = (key, value);
        assert(cur[0] == orig[i as int]);
        assert(pair == orig[i as int]);
        assert(orig.take(i + 1).drop_last() =~= orig.take(i as int));
        assert(orig.take(i + 1).last() == orig[i as int]);
        assert(rest@ =~= orig.skip(i + 1));
        let kv = chars_of(key.as_str());
        let k = kv.as_slice();
        if eq_str(k, "rename") {
            out.rename = Some(value_string(value));
        } else if eq_str(k, "rename_all") {
            out.rename_all = Some(value_string(value));
        } else if eq_str(k, "skip") || eq_str(k, "skip_serializing") {
            out.skip = true;
        } else if eq_str(k, "default") {
            out.default = true;
        }
        i = i + 1;
    }
    assert(orig.take(i as int) =~= orig);
    out
}

} // verus!
