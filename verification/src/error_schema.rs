//! The registration content of an error enum: each variant's error code and
//! the Zod schema of its data.

use crate::naming::{screaming_snake, to_screaming_snake_case};
use crate::order::views;
use crate::text::{chars_of, eq_str, extend_chars, extend_str, join, join_chars, string_of};
use crate::type_expr::{
    first_type_pos, lemma_first_type_pos, try_extract_wrapper, wrapper_args, ErrorVariantDef,
    GenericArg, NamedField, PathArgs, TypeExpr, TypeShape, VariantDef, VariantFields, WrapperMatch,
};
use vstd::prelude::*;

verus! {

/// Integer type names, rendered as `z.number().int()`.
pub open spec fn integer_idents() -> Seq<Seq<char>> {
    seq![
        "i8"@,
        "i16"@,
        "i32"@,
        "i64"@,
        "i128"@,
        "isize"@,
        "u8"@,
        "u16"@,
        "u32"@,
        "u64"@,
        "u128"@,
        "usize"@,
    ]
}

/// The Zod schema of a path type named `ident` without wrapper handling.
pub open spec fn named_schema(ident: Seq<char>) -> Seq<char> {
    if ident == "String"@ || ident == "str"@ {
        "z.string()"@
    } else if integer_idents().contains(ident) {
        "z.number().int()"@
    } else if ident == "f32"@ || ident == "f64"@ {
        "z.number()"@
    } else if ident == "bool"@ {
        "z.boolean()"@
    } else if ident == "Value"@ {
        "z.any()"@
    } else {
        ident + "Schema"@
    }
}

/// The Zod schema of a type: `Option<T>` as `.optional()`, `Vec<T>` as
/// `z.array(..)`, primitives by name, `()` as `z.void()`, other named
/// types as `{Name}Schema`, anything else `z.unknown()`.
pub open spec fn zod_of(ty: TypeExpr) -> Seq<char>
    decreases ty,
{
    match ty.shape {
        TypeShape::Path { ident, args } => {
            if (ident@ == "Option"@ || ident@ == "Vec"@) && wrapper_args(ty, ident@) is Some {
                let inner = match args {
                    PathArgs::Angle(v) => match first_type_pos(v@) {
                        Some(k) => if 0 <= k < v@.len() {
                            match v@[k] {
                                GenericArg::Type(t) => {
                                    proof {
                                        assert(decreases_to!(v => v@));
                                    }
                                    Some(zod_of(t))
                                },
                                GenericArg::Other => None,
                            }
                        } else {
                            None
                        },
                        None => None,
                    },
                    _ => None,
                };
                if ident@ == "Option"@ {
                    match inner {
                        Some(z) => z + ".optional()"@,
                        None => "z.unknown().optional()"@,
                    }
                } else {
                    match inner {
                        Some(z) => "z.array("@ + z + ")"@,
                        None => "z.array(z.unknown())"@,
                    }
                }
            } else {
                named_schema(ident@)
            }
        },
        TypeShape::Tuple(elems) => if elems@.len() == 0 {
            "z.void()"@
        } else {
            "z.unknown()"@
        },
        TypeShape::Other => "z.unknown()"@,
    }
}

fn named_schema_chars(ident: &str) -> (r: Vec<char>)
    ensures
        r@ == named_schema(ident@),
{
    let v = chars_of(ident);
    let mut out: Vec<char> = Vec::new();
    let ints: [&str; 12] = [
        "i8",
        "i16",
        "i32",
        "i64",
        "i128",
        "isize",
        "u8",
        "u16",
        "u32",
        "u64",
        "u128",
        "usize",
    ];
    assert(ints@.map_values(|s: &str| s@) =~= integer_idents());
    if eq_str(v.as_slice(), "String") || eq_str(v.as_slice(), "str") {
        extend_str(&mut out, "z.string()");
    } else if crate::types::is_one_of(v.as_slice(), ints.as_slice()) {
        extend_str(&mut out, "z.number().int()");
    } else if eq_str(v.as_slice(), "f32") || eq_str(v.as_slice(), "f64") {
        extend_str(&mut out, "z.number()");
    } else if eq_str(v.as_slice(), "bool") {
        extend_str(&mut out, "z.boolean()");
    } else if eq_str(v.as_slice(), "Value") {
        extend_str(&mut out, "z.any()");
    } else {
        extend_chars(&mut out, v.as_slice());
        extend_str(&mut out, "Schema");
    }
    out
}

/// The Zod schema of a field type.
pub fn zod_schema_for_type(ty: &TypeExpr) -> (r: String)
    ensures
        r@ == zod_of(*ty),
    decreases ty,
{
    let mut out: Vec<char> = Vec::new();
    match &ty.shape {
        TypeShape::Path { ident, args } => {
            let iv = chars_of(ident.as_str());
            let is_opt = eq_str(iv.as_slice(), "Option");
            let is_vec = eq_str(iv.as_slice(), "Vec");
            let wrapped = if is_opt {
                try_extract_wrapper(ty, "Option")
            } else if is_vec {
                try_extract_wrapper(ty, "Vec")
            } else {
                None
            };
            match wrapped {
                Some(m) => {
                    let ghost v = m.generic_args@;
                    proof {
                        lemma_first_type_pos(v);
                    }
                    let inner = match m.first_type() {
                        Some(t) => {
                            proof {
                                let k = first_type_pos(v)->0;
                                assert(v[k] == GenericArg::Type(*t));
                                match args {
                                    PathArgs::Angle(av) => {
                                        assert(av@ == v);
                                        assert(decreases_to!(av => av@));
                                    },
                                    _ => {},
                                }
                            }
                            Some(zod_schema_for_type(t))
                        },
                        None => None,
                    };
                    if is_opt {
                        match inner {
                            Some(z) => {
                                extend_str(&mut out, z.as_str());
                                extend_str(&mut out, ".optional()");
                            },
                            None => {
                                extend_str(&mut out, "z.unknown().optional()");
                            },
                        }
                    } else {
                        match inner {
                            Some(z) => {
                                extend_str(&mut out, "z.array(");
                                extend_str(&mut out, z.as_str());
                                extend_str(&mut out, ")");
                            },
                            None => {
                                extend_str(&mut out, "z.array(z.unknown())");
                            },
                        }
                    }
                },
                None => {
                    out = named_schema_chars(ident.as_str());
                },
            }
        },
        TypeShape::Tuple(elems) => {
            if elems.len() == 0 {
                extend_str(&mut out, "z.void()");
            } else {
                extend_str(&mut out, "z.unknown()");
            }
        },
        TypeShape::Other => {
            extend_str(&mut out, "z.unknown()");
        },
    }
    string_of(out.as_slice())
}

/// The Zod schema of a variant's data: none for a unit variant, the field's
/// schema for a single unnamed field, a `z.tuple([..])` for several, and a
/// `z.object({ .. })` for named fields.
pub open spec fn variant_data(fields: VariantFields) -> Option<Seq<char>> {
    match fields {
        VariantFields::Unit => None,
        VariantFields::Unnamed(ts) => if ts@.len() == 1 {
            Some(zod_of(ts@[0]))
        } else {
            Some(
                "z.tuple(["@ + join(ts@.map_values(|t: TypeExpr| zod_of(t)), ", "@) + "])"@,
            )
        },
        VariantFields::Named(fs) => Some(
            "z.object({ "@ + join(
                fs@.map_values(|f: NamedField| f.name@ + ": "@ + zod_of(f.ty)),
                ", "@,
            ) + " })"@,
        ),
    }
}

/// The Zod schema of a variant's data.
pub fn variant_data_schema(fields: &VariantFields) -> (r: Option<String>)
    ensures
        match r {
            Some(s) => variant_data(*fields) == Some(s@),
            None => variant_data(*fields) is None,
        },
{
    match fields {
        VariantFields::Unit => None,
        VariantFields::Unnamed(ts) => {
            if ts.len() == 1 {
                return Some(zod_schema_for_type(&ts[0]));
            }
            let ghost want = ts@.map_values(|t: TypeExpr| zod_of(t));
            let mut parts: Vec<Vec<char>> = Vec::new();
            let mut i: usize = 0;
            while i < ts.len()
                invariant
                    i <= ts@.len(),
                    want == ts@.map_values(|t: TypeExpr| zod_of(t)),
                    views(parts@) == want.take(i as int),
                decreases ts@.len() - i,
            {
                let z = zod_schema_for_type(&ts[i]);
                parts.push(chars_of(z.as_str()));
                assert(want.take(i + 1) =~= want.take(i as int).push(want[i as int]));
                i = i + 1;
            }
            assert(want.take(ts@.len() as int) =~= want);
            let mut out: Vec<char> = Vec::new();
            extend_str(&mut out, "z.tuple([");
            let j = join_chars(&parts, ", ");
            extend_chars(&mut out, j.as_slice());
            extend_str(&mut out, "])");
            Some(string_of(out.as_slice()))
        },
        VariantFields::Named(fs) => {
            let ghost want = fs@.map_values(|f: NamedField| f.name@ + ": "@ + zod_of(f.ty));
            let mut parts: Vec<Vec<char>> = Vec::new();
            let mut i: usize = 0;
            while i < fs.len()
                invariant
                    i <= fs@.len(),
                    want == fs@.map_values(|f: NamedField| f.name@ + ": "@ + zod_of(f.ty)),
                    views(parts@) == want.take(i as int),
                decreases fs@.len() - i,
            {
                let mut p = chars_of(fs[i].name.as_str());
                extend_str(&mut p, ": ");
                let z = zod_schema_for_type(&fs[i].ty);
                extend_str(&mut p, z.as_str());
                parts.push(p);
                assert(want.take(i + 1) =~= want.take(i as int).push(want[i as int]));
                i = i + 1;
            }
            assert(want.take(fs@.len() as int) =~= want);
            let mut out: Vec<char> = Vec::new();
            extend_str(&mut out, "z.object({ ");
            let j = join_chars(&parts, ", ");
            extend_chars(&mut out, j.as_slice());
            extend_str(&mut out, " })");
            Some(string_of(out.as_slice()))
        },
    }
}

/// The registration entries of an error enum's variants: each variant's
/// `SCREAMING_SNAKE_CASE` code and data schema, in order.
pub fn error_variants(variants: &[VariantDef]) -> (r: Vec<ErrorVariantDef>)
    ensures
        r@.len() == variants@.len(),
        forall|i: int|
            0 <= i < r@.len() ==> (#[trigger] r@[i]).name@ == screaming_snake(variants@[i].ident@)
                && match r@[i].data_schema {
                Some(s) => variant_data(variants@[i].fields) == Some(s@),
                None => variant_data(variants@[i].fields) is None,
            },
{
    let mut out: Vec<ErrorVariantDef> = Vec::new();
    let mut i: usize = 0;
    while i < variants.len()
        invariant
            i <= variants@.len(),
            out@.len() == i,
            forall|k: int|
                0 <= k < i ==> (#[trigger] out@[k]).name@ == screaming_snake(variants@[k].ident@)
                    && match out@[k].data_schema {
                    Some(s) => variant_data(variants@[k].fields) == Some(s@),
                    None => variant_data(variants@[k].fields) is None,
                },
        decreases variants@.len() - i,
    {
        let v = &variants[i];
        let name = to_screaming_snake_case(v.ident.as_str());
        let data_schema = variant_data_schema(&v.fields);
        out.push(ErrorVariantDef { name, data_schema });
        i = i + 1;
    }
    out
}

} // verus!
