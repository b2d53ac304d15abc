//! Rust types as the analysis sees them: the final path segment's name and
//! generic arguments, tuples, and everything else.
//!
//! Wrapper detection (`Json<T>`, `Result<T, E>`, `Vec<T>`, ...) compares the
//! final path segment's name, so `Json<T>`, `axum::Json<T>` and
//! `axum::extract::Json<T>` are matched alike.

use crate::diagnostics::{Error, ErrorKind};
use crate::text::{chars_of, eq_str};
use proc_macro2::Span;
use vstd::prelude::*;

verus! {

pub const JSON: &'static str = "Json";

pub const QUERY: &'static str = "Query";

pub const PATH: &'static str = "Path";

pub const RESULT: &'static str = "Result";

pub const OPTION: &'static str = "Option";

pub const VEC: &'static str = "Vec";

pub const STATE: &'static str = "State";

pub const SSE: &'static str = "Sse";

/// One generic argument: a type, or something else (a lifetime, a const,
/// a binding).
pub enum GenericArg {
    Type(TypeExpr),
    Other,
}

/// The arguments of the final path segment.
pub enum PathArgs {
    /// No arguments: `Json`.
    Bare,
    /// Angle-bracketed arguments: `Json<T>` (possibly empty: `Json<>`).
    Angle(Vec<GenericArg>),
    /// Parenthesised arguments: `Fn(A) -> B`.
    Paren,
}

/// The shape of a type.
pub enum TypeShape {
    /// A path type, by the name and arguments of its final segment.
    Path { ident: String, args: PathArgs },
    /// A tuple type; `()` is the empty tuple.
    Tuple(Vec<TypeExpr>),
    /// Any other type (references, arrays, ...).
    Other,
}

/// A type, with its source text (spaces removed) and span.
pub struct TypeExpr {
    /// The type's text with spaces removed, for messages.
    pub text: String,
    /// Where the type is written.
    pub span: Span,
    pub shape: TypeShape,
}

/// The type arguments among `args`, in order.
pub open spec fn type_args(args: Seq<GenericArg>) -> Seq<TypeExpr>
    decreases args.len(),
{
    if args.len() == 0 {
        Seq::empty()
    } else {
        let r = type_args(args.drop_last());
        match args.last() {
            GenericArg::Type(t) => r.push(t),
            GenericArg::Other => r,
        }
    }
}

/// The generic argument list of a matched wrapper type.
pub struct WrapperMatch<'a> {
    pub generic_args: &'a Vec<GenericArg>,
}

impl<'a> WrapperMatch<'a> {
    /// The type arguments of the match.
    pub open spec fn types(&self) -> Seq<TypeExpr> {
        type_args(self.generic_args@)
    }

    /// The nth type argument (0-indexed).
    pub fn nth_type(&self, n: usize) -> (r: Option<&'a TypeExpr>)
        ensures
            match r {
                Some(t) => n < self.types().len() && *t == self.types()[n as int],
                None => n >= self.types().len(),
            },
    {
        let args = self.generic_args;
        let mut seen: usize = 0;
        let mut i: usize = 0;
        assert(args@.take(0) =~= Seq::<GenericArg>::empty());
        while i < args.len()
            invariant
                i <= args@.len(),
                args == self.generic_args,
                seen == type_args(args@.take(i as int)).len(),
                seen <= n,
            decreases args@.len() - i,
        {
            assert(args@.take(i + 1).drop_last() =~= args@.take(i as int));
            proof {
                lemma_type_args_prefix(args@, i as int + 1);
            }
            match &args[i] {
                GenericArg::Type(t) => {
                    if seen == n {
                        assert(type_args(args@.take(i + 1)) == type_args(args@.take(i as int)).push(*t));
                        return Some(t);
                    }
                    seen = seen + 1;
                },
                GenericArg::Other => {},
            }
            i = i + 1;
        }
        assert(args@.take(args@.len() as int) =~= args@);
        None
    }

    /// The first type argument: `T` in `Wrapper<T, ...>`.
    pub fn first_type(&self) -> (r: Option<&'a TypeExpr>)
        ensures
            match r {
                Some(t) => 0 < self.types().len() && *t == self.types()[0],
                None => self.types().len() == 0,
            },
    {
        self.nth_type(0)
    }

    /// The second type argument: `E` in `Result<T, E>`.
    pub fn second_type(&self) -> (r: Option<&'a TypeExpr>)
        ensures
            match r {
                Some(t) => 1 < self.types().len() && *t == self.types()[1],
                None => self.types().len() <= 1,
            },
    {
        self.nth_type(1)
    }
}

/// The type arguments of a prefix are a prefix of the type arguments.
proof fn lemma_type_args_prefix(args: Seq<GenericArg>, n: int)
    requires
        0 <= n <= args.len(),
    ensures
        type_args(args.take(n)).len() <= type_args(args).len(),
        forall|k: int|
            0 <= k < type_args(args.take(n)).len() ==> type_args(args.take(n))[k] == type_args(
                args,
            )[k],
    decreases args.len() - n,
{
    if n < args.len() {
        assert(args.take(n + 1).drop_last() =~= args.take(n));
        lemma_type_args_prefix(args, n + 1);
    } else {
        assert(args.take(n) =~= args);
    }
}

/// The arguments of `ty` when it is `name<...>` with at least one argument.
pub open spec fn wrapper_args(ty: TypeExpr, name: Seq<char>) -> Option<Seq<GenericArg>> {
    match ty.shape {
        TypeShape::Path { ident, args } => if ident@ == name {
            match args {
                PathArgs::Angle(v) => if v@.len() > 0 {
                    Some(v@)
                } else {
                    None
                },
                _ => None,
            }
        } else {
            None
        },
        _ => None,
    }
}

/// Extract the generic arguments of `wrapper_name<...>` from `ty`.
///
/// Gives `None` when `ty` is not the named wrapper, or has no arguments.
pub fn try_extract_wrapper<'a>(ty: &'a TypeExpr, wrapper_name: &str) -> (r: Option<
    WrapperMatch<'a>,
>)
    ensures
        match r {
            Some(m) => wrapper_args(*ty, wrapper_name@) == Some(m.generic_args@),
            None => wrapper_args(*ty, wrapper_name@) is None,
        },
{
    match &ty.shape {
        TypeShape::Path { ident, args } => {
            if !eq_str(chars_of(ident.as_str()).as_slice(), wrapper_name) {
                return None;
            }
            match args {
                PathArgs::Angle(v) => {
                    if v.len() > 0 {
                        Some(WrapperMatch { generic_args: v })
                    } else {
                        None
                    }
                },
                _ => None,
            }
        },
        _ => None,
    }
}

/// Extract the generic arguments of `wrapper_name<...>` from `ty`, or give
/// an error at the type's span: an unsupported type for non-path types, a
/// missing wrapper for another name, empty arguments for `Name` and
/// `Name<>`, and an unsupported type for `Name(..)`.
pub fn extract_wrapper<'a>(ty: &'a TypeExpr, wrapper_name: &'static str) -> (r: Result<
    WrapperMatch<'a>,
    Error,
>)
    ensures
        match r {
            Ok(m) => wrapper_args(*ty, wrapper_name@) == Some(m.generic_args@),
            Err(e) => wrapper_args(*ty, wrapper_name@) is None && e.span_spec() == ty.span && match ty.shape {
                TypeShape::Path { ident, args } => if ident@ != wrapper_name@ {
                    e.kind_spec() matches ErrorKind::MissingWrapper { expected, found, .. }
                        && expected == wrapper_name && found@ == ty.text@
                } else {
                    match args {
                        PathArgs::Paren => e.kind_spec() matches ErrorKind::UnsupportedType {
                            name,
                            reason,
                            ..
                        } && name@ == ty.text@ && reason@ == "parenthesised arguments are not supported"@,
                        _ => e.kind_spec() == (ErrorKind::EmptyGenericArgs { wrapper: wrapper_name }),
                    }
                },
                _ => e.kind_spec() matches ErrorKind::UnsupportedType { name, reason, .. } && name@
                    == ty.text@ && reason@ == "empty type path"@,
            },
        },
{
    let span = ty.span;
    match &ty.shape {
        TypeShape::Path { ident, args } => {
            if !eq_str(chars_of(ident.as_str()).as_slice(), wrapper_name) {
                return Err(Error::missing_wrapper(span, wrapper_name, ty.text.as_str()));
            }
            match args {
                PathArgs::Angle(v) => {
                    if v.len() > 0 {
                        Ok(WrapperMatch { generic_args: v })
                    } else {
                        Err(Error::empty_generic_args(span, wrapper_name))
                    }
                },
                PathArgs::Bare => Err(Error::empty_generic_args(span, wrapper_name)),
                PathArgs::Paren => {
                    proof {
                        reveal_strlit("parenthesised arguments are not supported");
                    }
                    Err(
                        Error::unsupported_type(
                            span,
                            ty.text.as_str(),
                            "parenthesised arguments are not supported",
                            "use angle-bracketed generics: `Wrapper<T>`",
                        ),
                    )
                },
            }
        },
        _ => Err(
            Error::unsupported_type(span, ty.text.as_str(), "empty type path", "use a named type"),
        ),
    }
}

/// Names of the primitive types.
pub open spec fn primitive_idents() -> Seq<Seq<char>> {
    seq![
        "String"@,
        "str"@,
        "bool"@,
        "i8"@,
        "i16"@,
        "i32"@,
        "i64"@,
        "i128"@,
        "isize"@,
        "u8"@,
        "u16"@,
        "u32"@,
        "u64"@,
        "u128"@,
        "usize"@,
        "f32"@,
        "f64"@,
    ]
}

/// A primitive type or the unit type `()`.
pub open spec fn primitive_type(ty: TypeExpr) -> bool {
    match ty.shape {
        TypeShape::Tuple(elems) => elems@.len() == 0,
        TypeShape::Path { ident, .. } => primitive_idents().contains(ident@),
        TypeShape::Other => false,
    }
}

/// Returns `true` for Rust primitive types and the unit type `()`.
pub fn is_primitive(ty: &TypeExpr) -> (r: bool)
    ensures
        r == primitive_type(*ty),
{
    match &ty.shape {
        TypeShape::Tuple(elems) => elems.len() == 0,
        TypeShape::Path { ident, .. } => {
            let names: [&str; 17] = [
                "String",
                "str",
                "bool",
                "i8",
                "i16",
                "i32",
                "i64",
                "i128",
                "isize",
                "u8",
                "u16",
                "u32",
                "u64",
                "u128",
                "usize",
                "f32",
                "f64",
            ];
            let v = chars_of(ident.as_str());
            let r = crate::types::is_one_of(v.as_slice(), names.as_slice());
            assert(names@.map_values(|s: &str| s@) =~= primitive_idents());
            r
        },
        TypeShape::Other => false,
    }
}

// ---------------------------------------------------------------------------
// Innermost custom type
// ---------------------------------------------------------------------------

/// The position of the first type argument among `args`.
pub open spec fn first_type_pos(args: Seq<GenericArg>) -> Option<int>
    decreases args.len(),
{
    if args.len() == 0 {
        None
    } else {
        match first_type_pos(args.drop_last()) {
            Some(k) => Some(k),
            None => if args.last() is Type {
                Some(args.len() - 1)
            } else {
                None
            },
        }
    }
}

pub proof fn lemma_first_type_pos(args: Seq<GenericArg>)
    ensures
        first_type_pos(args) matches Some(k) ==> 0 <= k < args.len() && args[k] is Type
            && type_args(args).len() > 0 && args[k] == GenericArg::Type(type_args(args)[0]),
        first_type_pos(args) is None ==> type_args(args).len() == 0,
    decreases args.len(),
{
    if args.len() > 0 {
        lemma_first_type_pos(args.drop_last());
        assert forall|k: int| 0 <= k < args.len() - 1 implies args.drop_last()[k] == args[k] by {}
    }
}

/// The well-known wrappers that `innermost_custom_type` looks through.
pub open spec fn is_wrapper_ident(n: Seq<char>) -> bool {
    n == "Result"@ || n == "Json"@ || n == "Query"@ || n == "Option"@ || n == "Vec"@ || n
        == "State"@ || n == "Sse"@
}

/// The innermost type below the well-known wrappers (through their first
/// type argument); none when that type is primitive.
pub open spec fn innermost(ty: TypeExpr) -> Option<TypeExpr>
    decreases ty,
{
    let base = if primitive_type(ty) {
        None
    } else {
        Some(ty)
    };
    match ty.shape {
        TypeShape::Path { ident, args } => match args {
            PathArgs::Angle(v) => if is_wrapper_ident(ident@) && first_type_pos(v@) is Some {
                let k = first_type_pos(v@)->0;
                if 0 <= k < v@.len() {
                    match v@[k] {
                        GenericArg::Type(t) => {
                            proof {
                                assert(decreases_to!(v => v@));
                            }
                            innermost(t)
                        },
                        GenericArg::Other => base,
                    }
                } else {
                    base
                }
            } else {
                base
            },
            _ => base,
        },
        _ => base,
    }
}

/// Recursively unwrap well-known wrappers and return the innermost type.
///
/// `Result<Json<Vec<Planet>>, E>` gives `Planet`; none when the innermost
/// type is primitive.
pub fn innermost_custom_type(ty: &TypeExpr) -> (r: Option<&TypeExpr>)
    ensures
        match r {
            Some(t) => innermost(*ty) == Some(*t),
            None => innermost(*ty) is None,
        },
    decreases ty,
{
    match &ty.shape {
        TypeShape::Path { ident, args } => {
            match args {
                PathArgs::Angle(v) => {
                    let iv = chars_of(ident.as_str());
                    let is_wrapper = eq_str(iv.as_slice(), "Result") || eq_str(iv.as_slice(), "Json")
                        || eq_str(iv.as_slice(), "Query") || eq_str(iv.as_slice(), "Option")
                        || eq_str(iv.as_slice(), "Vec") || eq_str(iv.as_slice(), "State")
                        || eq_str(iv.as_slice(), "Sse");
                    if is_wrapper && v.len() > 0 {
                        let m = WrapperMatch { generic_args: v };
                        proof {
                            lemma_first_type_pos(v@);
                        }
                        match m.first_type() {
                            Some(t) => {
                                proof {
                                    let k = first_type_pos(v@)->0;
                                    assert(v@[k] == GenericArg::Type(*t));
                                    assert(decreases_to!(v => v@));
                                }
                                return innermost_custom_type(t);
                            },
                            None => {},
                        }
                    } else {
                        proof {
                            lemma_first_type_pos(v@);
                        }
                    }
                },
                _ => {},
            }
        },
        _ => {},
    }
    if is_primitive(ty) {
        None
    } else {
        Some(ty)
    }
}

// ---------------------------------------------------------------------------
// Enum variants
// ---------------------------------------------------------------------------

/// A named field: its name and type.
pub struct NamedField {
    pub name: String,
    pub ty: TypeExpr,
}

/// The fields of an enum variant.
pub enum VariantFields {
    /// `Name`
    Unit,
    /// `Name(A, B)`
    Unnamed(Vec<TypeExpr>),
    /// `Name { a: A, b: B }`
    Named(Vec<NamedField>),
}

/// An enum variant: its name and fields.
pub struct VariantDef {
    pub ident: String,
    pub fields: VariantFields,
}

/// The registration entry of an error variant: its error code and the Zod
/// schema of its data (none for unit variants).
#[derive(Debug)]
pub struct ErrorVariantDef {
    pub name: String,
    pub data_schema: Option<String>,
}

} // verus!
