//! Error codes and data schemas of `#[derive(OrpcError)]` enums.

use crate::naming::{char_is_uppercase, unicode_uppercase};
use crate::order::views;
use crate::text::{
    ascii_upper, ascii_upper_exec, chars_of, eq_str, extend_chars, extend_str, join, join_chars,
    string_of,
};
use crate::type_expr::{
    ErrorVariantDef, GenericArg, NamedField, PathArgs, TypeExpr, TypeShape, VariantDef,
    VariantFields,
};
use vstd::prelude::*;

verus! {

/// `PascalCase` to `SCREAMING_SNAKE_CASE` as the error derive does it: an
/// `_` before each uppercase character that follows a non-uppercase one;
/// uppercase characters kept, others ASCII-uppercased.
pub open spec fn error_code(s: Seq<char>) -> Seq<char>
    decreases s.len(),
{
    if s.len() == 0 {
        Seq::empty()
    } else {
        let c = s.last();
        if unicode_uppercase(c) {
            let sep = if s.len() > 1 && !unicode_uppercase(s[s.len() - 2]) {
                seq!['_']
            } else {
                Seq::empty()
            };
            error_code(s.drop_last()) + sep + seq![c]
        } else {
            error_code(s.drop_last()) + seq![ascii_upper(c)]
        }
    }
}

/// Convert a variant name to its `SCREAMING_SNAKE_CASE` error code.
///
/// An error code holds no ASCII lowercase letter.
pub fn to_screaming_snake_case(name: &str) -> (r: String)
    ensures
        r@ == error_code(name@),
        forall|i: int| 0 <= i < r@.len() ==> !crate::naming::is_ascii_lower(#[trigger] r@[i]),
{
    let v = chars_of(name);
    let mut out: Vec<char> = Vec::new();
    let mut prev_is_lower = false;
    let mut i: usize = 0;
    assert(v@.take(0) =~= Seq::<char>::empty());
    while i < v.len()
        invariant
            i <= v@.len(),
            v@ == name@,
            out@ == error_code(v@.take(i as int)),
            prev_is_lower == (i > 0 && !unicode_uppercase(v@[i - 1])),
            forall|k: int| 0 <= k < out@.len() ==> !crate::naming::is_ascii_lower(#[trigger] out@[k]),
        decreases v@.len() - i,
    {
        let c = v[i];
        let ghost t = v@.take(i + 1);
        assert(t.drop_last() =~= v@.take(i as int));
        assert(t.last() == c);
        if i > 0 {
            assert(t[t.len() - 2] == v@[i - 1]);
        }
        let ghost before = out@;
        if char_is_uppercase(c) {
            if i > 0 && prev_is_lower {
                out.push('_');
            }
            out.push(c);
            prev_is_lower = false;
        } else {
            let u = ascii_upper_exec(c);
            assert(!crate::naming::is_ascii_lower(u)) by {
                if 'a' <= c && c <= 'z' {
                    assert((c as int) - 32 < 'a' as int);
                }
            }
            out.push(u);
            prev_is_lower = true;
        }
        assert(out@ =~= error_code(t));
        i = i + 1;
    }
    assert(v@.take(v@.len() as int) =~= v@);
    string_of(out.as_slice())
}

/// Numeric type names, rendered as `z.number()`.
pub open spec fn number_idents() -> Seq<Seq<char>> {
    seq![
        "i8"@,
        "i16"@,
        "i32"@,
        "i64"@,
        "u8"@,
        "u16"@,
        "u32"@,
        "u64"@,
        "f32"@,
        "f64"@,
        "isize"@,
        "usize"@,
    ]
}

/// The Zod schema the error derive gives a field type: by the name of its
/// final path segment, with `Option<T>` and `Vec<T>` read through their
/// first argument when it is a type; non-path types are `z.unknown()`.
pub open spec fn derive_zod_of(ty: TypeExpr) -> Seq<char>
    decreases ty,
{
    match ty.shape {
        TypeShape::Path { ident, args } => {
            let first = match args {
                PathArgs::Angle(v) => if v@.len() > 0 {
                    match v@[0] {
                        GenericArg::Type(t) => {
                            proof {
                                assert(decreases_to!(v => v@));
                            }
                            Some(derive_zod_of(t))
                        },
                        GenericArg::Other => None,
                    }
                } else {
                    None
                },
                _ => None,
            };
            if ident@ == "String"@ || ident@ == "str"@ {
                "z.string()"@
            } else if number_idents().contains(ident@) {
                "z.number()"@
            } else if ident@ == "bool"@ {
                "z.boolean()"@
            } else if ident@ == "Option"@ {
                match first {
                    Some(z) => z + ".optional()"@,
                    None => "z.unknown()"@,
                }
            } else if ident@ == "Vec"@ {
                match first {
                    Some(z) => "z.array("@ + z + ")"@,
                    None => "z.array(z.unknown())"@,
                }
            } else {
                ident@ + "Schema"@
            }
        },
        _ => "z.unknown()"@,
    }
}

/// Generate a Zod schema string for a Rust type.
pub fn generate_zod_schema_for_type(ty: &TypeExpr) -> (r: String)
    ensures
        r@ == derive_zod_of(*ty),
    decreases ty,
{
    let mut out: Vec<char> = Vec::new();
    match &ty.shape {
        TypeShape::Path { ident, args } => {
            let iv = chars_of(ident.as_str());
            let nums: [&str; 12] = [
                "i8",
                "i16",
                "i32",
                "i64",
                "u8",
                "u16",
                "u32",
                "u64",
                "f32",
                "f64",
                "isize",
                "usize",
            ];
            assert(nums@.map_values(|s: &str| s@) =~= number_idents());
            if eq_str(iv.as_slice(), "String") || eq_str(iv.as_slice(), "str") {
                extend_str(&mut out, "z.string()");
            } else if crate::types::is_one_of(iv.as_slice(), nums.as_slice()) {
                extend_str(&mut out, "z.number()");
            } else if eq_str(iv.as_slice(), "bool") {
                extend_str(&mut out, "z.boolean()");
            } else if eq_str(iv.as_slice(), "Option") || eq_str(iv.as_slice(), "Vec") {
                let is_opt = eq_str(iv.as_slice(), "Option");
                let mut first: Option<String> = None;
                match args {
                    PathArgs::Angle(v) => {
                        if v.len() > 0 {
                            match &v[0] {
                                GenericArg::Type(t) => {
                                    proof {
                                        assert(decreases_to!(v => v@));
                                    }
                                    first = Some(generate_zod_schema_for_type(t));
                                },
                                GenericArg::Other => {},
                            }
                        }
                    },
                    _ => {},
                }
                match first {
                    Some(z) => {
                        if is_opt {
                            extend_str(&mut out, z.as_str());
                            extend_str(&mut out, ".optional()");
                        } else {
                            extend_str(&mut out, "z.array(");
                            extend_str(&mut out, z.as_str());
                            extend_str(&mut out, ")");
                        }
                    },
                    None => {
                        if is_opt {
                            extend_str(&mut out, "z.unknown()");
                        } else {
                            extend_str(&mut out, "z.array(z.unknown())");
                        }
                    },
                }
            } else {
                extend_chars(&mut out, iv.as_slice());
                extend_str(&mut out, "Schema");
            }
        },
        _ => {
            extend_str(&mut out, "z.unknown()");
        },
    }
    string_of(out.as_slice())
}

/// The data schema the error derive gives a variant: none for a unit
/// variant, the field's schema for one unnamed field, a `z.tuple([..])` for
/// several, a `z.object({ .. })` for named fields.
pub open spec fn derive_variant_data(fields: VariantFields) -> Option<Seq<char>> {
    match fields {
        VariantFields::Unit => None,
        VariantFields::Unnamed(ts) => if ts@.len() == 1 {
            Some(derive_zod_of(ts@[0]))
        } else {
            Some(
                "z.tuple(["@ + join(ts@.map_values(|t: TypeExpr| derive_zod_of(t)), ", "@)
                    + "])"@,
            )
        },
        VariantFields::Named(fs) => Some(
            "z.object({ "@ + join(
                fs@.map_values(|f: NamedField| f.name@ + ": "@ + derive_zod_of(f.ty)),
                ", "@,
            ) + " })"@,
        ),
    }
}

fn derive_variant_data_exec(fields: &VariantFields) -> (r: Option<String>)
    ensures
        match r {
            Some(s) => derive_variant_data(*fields) == Some(s@),
            None => derive_variant_data(*fields) is None,
        },
{
    match fields {
        VariantFields::Unit => None,
        VariantFields::Unnamed(ts) => {
            if ts.len() == 1 {
                return Some(generate_zod_schema_for_type(&ts[0]));
            }
            let ghost want = ts@.map_values(|t: TypeExpr| derive_zod_of(t));
            let mut parts: Vec<Vec<char>> = Vec::new();
            let mut i: usize = 0;
            while i < ts.len()
                invariant
                    i <= ts@.len(),
                    want == ts@.map_values(|t: TypeExpr| derive_zod_of(t)),
                    views(parts@) == want.take(i as int),
                decreases ts@.len() - i,
            {
                let z = generate_zod_schema_for_type(&ts[i]);
                parts.push(chars_of(z.as_str()));
                assert(want.take(i + 1) =~= want.take(i as int).push(want[i as int]));
                i = i + 1;
            }
            assert(want.take(ts@.len() as int) =~= want);
            let mut out: Vec<char> = Vec::new();
            extend_str(&mut out, "z.tuple([");
            let j = join_chars(&parts, ", ");
            extend_chars(&mut out, j.as_slice());
            extend_str(&mut out, "])");
            Some(string_of(out.as_slice()))
        },
        VariantFields::Named(fs) => {
            let ghost want = fs@.map_values(|f: NamedField| f.name@ + ": "@ + derive_zod_of(f.ty));
            let mut parts: Vec<Vec<char>> = Vec::new();
            let mut i: usize = 0;
            while i < fs.len()
                invariant
                    i <= fs@.len(),
                    want == fs@.map_values(|f: NamedField| f.name@ + ": "@ + derive_zod_of(f.ty)),
                    views(parts@) == want.take(i as int),
                decreases fs@.len() - i,
            {
                let mut p = chars_of(fs[i].name.as_str());
                extend_str(&mut p, ": ");
                let z = generate_zod_schema_for_type(&fs[i].ty);
                extend_str(&mut p, z.as_str());
                parts.push(p);
                assert(want.take(i + 1) =~= want.take(i as int).push(want[i as int]));
                i = i + 1;
            }
            assert(want.take(fs@.len() as int) =~= want);
            let mut out: Vec<char> = Vec::new();
            extend_str(&mut out, "z.object({ ");
            let j = join_chars(&parts, ", ");
            extend_chars(&mut out, j.as_slice());
            extend_str(&mut out, " })");
            Some(string_of(out.as_slice()))
        },
    }
}

/// The registration entries the error derive gives an enum's variants:
/// each variant's code and data schema, in order.
pub fn derive_error_variants(variants: &[VariantDef]) -> (r: Vec<ErrorVariantDef>)
    ensures
        r@.len() == variants@.len(),
        forall|i: int|
            0 <= i < r@.len() ==> (#[trigger] r@[i]).name@ == error_code(variants@[i].ident@)
                && match r@[i].data_schema {
                Some(s) => derive_variant_data(variants@[i].fields) == Some(s@),
                None => derive_variant_data(variants@[i].fields) is None,
            },
{
    let mut out: Vec<ErrorVariantDef> = Vec::new();
    let mut i: usize = 0;
    while i < variants.len()
        invariant
            i <= variants@.len(),
            out@.len() == i,
            forall|k: int|
                0 <= k < i ==> (#[trigger] out@[k]).name@ == error_code(variants@[k].ident@)
                    && match out@[k].data_schema {
                    Some(s) => derive_variant_data(variants@[k].fields) == Some(s@),
                    None => derive_variant_data(variants@[k].fields) is None,
                },
        decreases variants@.len() - i,
    {
        let v = &variants[i];
        let name = to_screaming_snake_case(v.ident.as_str());
        let data_schema = derive_variant_data_exec(&v.fields);
        out.push(ErrorVariantDef { name, data_schema });
        i = i + 1;
    }
    out
}

} // verus!
