use proc_macro2::Span;
use rorpc::attr_args::{orpc_args_from_pairs, AttrPair, OrpcArgsError};
use rorpc::diagnostics::Error;
use rorpc::error_derive::{derive_error_variants, generate_zod_schema_for_type};
use rorpc::error_schema::{error_variants, variant_data_schema, zod_schema_for_type};
use rorpc::signature::{extract_handler_signature, FnSig};
use rorpc::type_expr::{
    extract_wrapper, innermost_custom_type, is_primitive, try_extract_wrapper, GenericArg,
    NamedField, PathArgs, TypeExpr, TypeShape, VariantDef, VariantFields, JSON, RESULT,
};

fn span() -> Span {
    Span::call_site()
}

fn path(ident: &str, args: Vec<TypeExpr>) -> TypeExpr {
    let text = if args.is_empty() {
        ident.to_string()
    } else {
        let inner: Vec<String> = args.iter().map(|a| a.text.clone()).collect();
        format!("{}<{}>", ident, inner.join(","))
    };
    let shape_args = if args.is_empty() {
        PathArgs::Bare
    } else {
        PathArgs::Angle(args.into_iter().map(GenericArg::Type).collect())
    };
    TypeExpr { text, span: span(), shape: TypeShape::Path { ident: ident.to_string(), args: shape_args } }
}

fn named(ident: &str) -> TypeExpr {
    path(ident, vec![])
}

fn unit() -> TypeExpr {
    TypeExpr { text: "()".to_string(), span: span(), shape: TypeShape::Tuple(vec![]) }
}

// --- diagnostics ---

#[test]
fn missing_wrapper_message() {
    let err = Error::missing_wrapper(span(), "Json", "Vec<Planet>");
    let msg = err.to_string();
    assert!(msg.contains("expected `Json` wrapper"));
    assert!(msg.contains("Vec<Planet>"));
    assert!(msg.contains("help:"));
    assert!(msg.contains("Json<Vec<Planet>>"));
}

#[test]
fn empty_generic_args_message() {
    let err = Error::empty_generic_args(span(), "Result");
    assert!(err.to_string().contains("`Result` requires at least one type argument"));
}

#[test]
fn missing_required_attr_message() {
    let err = Error::missing_required_attr(span(), "method", "add `method = \"GET\"` to #[orpc]");
    let msg = err.to_string();
    assert!(msg.contains("missing required attribute `method`"));
    assert!(msg.contains("help:"));
}

static KEYS: [&str; 3] = ["method", "path", "data"];

#[test]
fn unknown_key_message() {
    let err = Error::unknown_key(span(), "routes", &KEYS);
    assert_eq!(err.to_string(), "unknown key `routes`\n  = valid keys: method, path, data");
}

#[test]
fn conflicting_attrs_message() {
    let err = Error::conflicting_attrs(span(), "method", "methods");
    let msg = err.to_string();
    assert!(msg.contains("conflicting attributes"));
    assert!(msg.contains("help: remove either"));
}

#[test]
fn missing_return_type_message() {
    let err = Error::missing_return_type(span(), "handle_ping");
    let msg = err.to_string();
    assert!(msg.contains("`handle_ping` has no return type"));
    assert!(msg.contains("Json<T>"));
}

#[test]
fn invalid_handler_sig_message() {
    let err = Error::invalid_handler_sig(span(), "my_handler", "return type is not Json<T>");
    let msg = err.to_string();
    assert!(msg.contains("invalid handler signature for `my_handler`"));
    assert!(msg.contains("return type is not Json<T>"));
}

#[test]
fn syn_error_forwarded() {
    let err = Error::forwarded(span(), "raw syn error".to_string());
    assert!(err.to_string().contains("raw syn error"));
}

#[test]
fn invalid_attr_value_message() {
    let err = Error::invalid_attr_value(span(), "min", "a number", "\"x\"");
    assert_eq!(err.to_string(), "invalid value for `min`\n  = expected: a number\n  = found: \"x\"");
}

// --- wrappers ---

#[test]
fn bare_json() {
    let ty = path("Json", vec![named("Planet")]);
    let m = try_extract_wrapper(&ty, JSON).unwrap();
    assert!(m.first_type().is_some());
}

#[test]
fn qualified_result() {
    let ty = path("Result", vec![named("Planet"), named("AppError")]);
    let m = try_extract_wrapper(&ty, RESULT).unwrap();
    assert!(m.first_type().is_some());
    assert_eq!(m.second_type().unwrap().text, "AppError");
    assert!(m.nth_type(0).is_some());
    assert!(m.nth_type(1).is_some());
    assert!(m.nth_type(2).is_none());
}

#[test]
fn lifetimes_are_not_type_arguments() {
    let ty = TypeExpr {
        text: "Json<'a,Planet>".to_string(),
        span: span(),
        shape: TypeShape::Path {
            ident: "Json".to_string(),
            args: PathArgs::Angle(vec![GenericArg::Other, GenericArg::Type(named("Planet"))]),
        },
    };
    let m = try_extract_wrapper(&ty, JSON).unwrap();
    assert_eq!(m.first_type().unwrap().text, "Planet");
    assert!(m.second_type().is_none());
}

#[test]
fn wrong_wrapper_returns_none() {
    assert!(try_extract_wrapper(&path("Vec", vec![named("Planet")]), JSON).is_none());
    assert!(try_extract_wrapper(&named("Json"), JSON).is_none());
}

#[test]
fn extract_wrong_wrapper_gives_error() {
    let ty = path("Vec", vec![named("Planet")]);
    let msg = extract_wrapper(&ty, JSON).err().unwrap().to_string();
    assert!(msg.contains("expected `Json` wrapper"));
    assert!(msg.contains("Vec<Planet>"));
    let bare = extract_wrapper(&named("Json"), JSON).err().unwrap().to_string();
    assert!(bare.contains("`Json` requires at least one type argument"));
    let paren = TypeExpr {
        text: "Json(u8)".to_string(),
        span: span(),
        shape: TypeShape::Path { ident: "Json".to_string(), args: PathArgs::Paren },
    };
    assert!(extract_wrapper(&paren, JSON).err().unwrap().to_string().contains("parenthesised"));
    let other = TypeExpr { text: "&str".to_string(), span: span(), shape: TypeShape::Other };
    assert!(extract_wrapper(&other, JSON).err().unwrap().to_string().contains("empty type path"));
}

#[test]
fn primitives_identified() {
    for s in ["String", "bool", "i32", "u64", "f64", "usize"] {
        assert!(is_primitive(&named(s)), "{} should be primitive", s);
    }
    assert!(is_primitive(&unit()));
    assert!(!is_primitive(&named("Planet")));
    assert!(!is_primitive(&named("AppError")));
}

#[test]
fn unwraps_result_json_vec() {
    let ty = path("Result", vec![path("Json", vec![path("Vec", vec![named("Planet")])]), named("E")]);
    assert_eq!(innermost_custom_type(&ty).unwrap().text, "Planet");
    assert!(innermost_custom_type(&path("Json", vec![named("String")])).is_none());
    assert_eq!(innermost_custom_type(&named("Planet")).unwrap().text, "Planet");
}

// --- handler signatures ---

fn sig(inputs: Vec<TypeExpr>, output: Option<TypeExpr>) -> FnSig {
    FnSig { name: "handler".to_string(), span: span(), is_async: true, inputs, output }
}

#[test]
fn json_return_only() {
    let f = sig(vec![], Some(path("Json", vec![named("Planet")])));
    let s = extract_handler_signature(&f).ok().unwrap();
    assert_eq!(s.fn_name, "handler");
    assert_eq!(s.output_type.unwrap().text, "Planet");
    assert!(s.error_type.is_none());
    assert!(s.input_type.is_none());
    assert!(s.state_type.is_none());
    assert!(s.is_async);
    assert!(!s.is_streaming);
}

#[test]
fn result_json_return_with_params() {
    let f = sig(
        vec![
            path("State", vec![named("Db")]),
            path("Query", vec![named("Filter")]),
            path("Json", vec![named("NewPlanet")]),
        ],
        Some(path("Result", vec![path("Json", vec![named("Planet")]), named("AppError")])),
    );
    let s = extract_handler_signature(&f).ok().unwrap();
    assert_eq!(s.output_type.unwrap().text, "Planet");
    assert_eq!(s.error_type.unwrap().text, "AppError");
    assert_eq!(s.state_type.unwrap().text, "Db");
    assert_eq!(s.query_type.unwrap().text, "Filter");
    assert_eq!(s.input_type.unwrap().text, "NewPlanet");
}

#[test]
fn streaming_return() {
    let f = sig(vec![], Some(path("Sse", vec![named("S")])));
    let s = extract_handler_signature(&f).ok().unwrap();
    assert!(s.is_streaming);
    assert!(s.output_type.is_none());
}

#[test]
fn signature_errors() {
    let none = extract_handler_signature(&sig(vec![], None)).err().unwrap().to_string();
    assert!(none.contains("`handler` has no return type"));
    let bare = extract_handler_signature(&sig(vec![], Some(named("Planet")))).err().unwrap().to_string();
    assert!(bare.contains("return type must be Json<T>"));
    let not_json = extract_handler_signature(&sig(vec![], Some(path("Result", vec![named("Planet"), named("E")]))))
        .err()
        .unwrap()
        .to_string();
    assert!(not_json.contains("Result's first type argument must be Json<T>"));
}

// --- error schemas ---

#[test]
fn zod_schema_primitives() {
    assert_eq!(zod_schema_for_type(&named("String")), "z.string()");
    assert_eq!(zod_schema_for_type(&named("i64")), "z.number().int()");
    assert_eq!(zod_schema_for_type(&named("f32")), "z.number()");
    assert_eq!(zod_schema_for_type(&named("bool")), "z.boolean()");
    assert_eq!(zod_schema_for_type(&named("Value")), "z.any()");
    assert_eq!(zod_schema_for_type(&unit()), "z.void()");
    assert_eq!(zod_schema_for_type(&path("Option", vec![named("u8")])), "z.number().int().optional()");
    assert_eq!(zod_schema_for_type(&path("Vec", vec![named("Planet")])), "z.array(PlanetSchema)");
}

#[test]
fn derive_zod_schema_primitives() {
    assert_eq!(generate_zod_schema_for_type(&named("String")), "z.string()");
    assert_eq!(generate_zod_schema_for_type(&named("i32")), "z.number()");
    assert_eq!(generate_zod_schema_for_type(&named("bool")), "z.boolean()");
    assert_eq!(generate_zod_schema_for_type(&path("Option", vec![named("String")])), "z.string().optional()");
    assert_eq!(generate_zod_schema_for_type(&path("Vec", vec![named("i32")])), "z.array(z.number())");
    assert_eq!(generate_zod_schema_for_type(&named("Planet")), "PlanetSchema");
    assert_eq!(generate_zod_schema_for_type(&unit()), "z.unknown()");
}

fn variants() -> Vec<VariantDef> {
    vec![
        VariantDef { ident: "NotFound".to_string(), fields: VariantFields::Unit },
        VariantDef {
            ident: "Conflict".to_string(),
            fields: VariantFields::Named(vec![NamedField { name: "reason".to_string(), ty: named("String") }]),
        },
        VariantDef { ident: "DatabaseError".to_string(), fields: VariantFields::Unnamed(vec![named("String")]) },
        VariantDef {
            ident: "Pair".to_string(),
            fields: VariantFields::Unnamed(vec![named("u8"), named("bool")]),
        },
    ]
}

#[test]
fn error_registration_entries() {
    let vs = error_variants(&variants());
    assert_eq!(vs[0].name, "NOT_FOUND");
    assert_eq!(vs[0].data_schema, None);
    assert_eq!(vs[1].name, "CONFLICT");
    assert_eq!(vs[1].data_schema, Some("z.object({ reason: z.string() })".to_string()));
    assert_eq!(vs[2].name, "DATABASE_ERROR");
    assert_eq!(vs[2].data_schema, Some("z.string()".to_string()));
    assert_eq!(vs[3].data_schema, Some("z.tuple([z.number().int(), z.boolean()])".to_string()));
    let ds = derive_error_variants(&variants());
    assert_eq!(ds[3].data_schema, Some("z.tuple([z.number(), z.boolean()])".to_string()));
    assert_eq!(variant_data_schema(&VariantFields::Unnamed(vec![])), Some("z.tuple([])".to_string()));
}

// --- #[orpc] arguments ---

fn pair(key: &str, value: Option<&str>) -> AttrPair {
    AttrPair { key: key.to_string(), value: value.map(|v| v.to_string()) }
}

#[test]
fn orpc_args_read() {
    let a = orpc_args_from_pairs(&[pair("method", Some("post")), pair("path", Some("/planet/list"))]).unwrap();
    assert_eq!(a.method, "POST");
    assert_eq!(a.path, "/planet/list");
    let last = orpc_args_from_pairs(&[
        pair("path", Some("/a")),
        pair("method", Some("get")),
        pair("path", Some("/b")),
    ])
    .unwrap();
    assert_eq!(last.path, "/b");
}

#[test]
fn orpc_args_errors() {
    assert_eq!(
        orpc_args_from_pairs(&[pair("method", None)]).unwrap_err(),
        OrpcArgsError::NotStringLiteral(0)
    );
    assert_eq!(
        orpc_args_from_pairs(&[pair("method", Some("GET")), pair("route", Some("/x"))]).unwrap_err(),
        OrpcArgsError::UnknownKey(1)
    );
    assert_eq!(orpc_args_from_pairs(&[pair("path", Some("/x"))]).unwrap_err(), OrpcArgsError::MissingMethod);
    assert_eq!(orpc_args_from_pairs(&[pair("method", Some("GET"))]).unwrap_err(), OrpcArgsError::MissingPath);
    assert_eq!(
        OrpcArgsError::UnknownKey(1).message("route"),
        "unknown #[orpc] key `route` \u{2014} expected `method` or `path`"
    );
    assert_eq!(OrpcArgsError::MissingPath.message(""), "#[orpc] requires `path`");
}
