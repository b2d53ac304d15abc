use proc_macro2::Span;
use rorpc::error_derive::generate_zod_schema_for_type;
use rorpc::error_schema::{error_variants, zod_schema_for_type};
use rorpc::signature::{extract_handler_signature, FnSig, HandlerSignature};
use rorpc::type_expr::{
    innermost_custom_type, is_primitive, try_extract_wrapper, GenericArg, PathArgs, TypeExpr,
    TypeShape, VariantDef, VariantFields, JSON, RESULT,
};

fn span() -> Span {
    Span::call_site()
}

/// A path type written as `prefix` followed by `ident` and its type arguments.
fn qualified(prefix: &str, ident: &str, args: Vec<TypeExpr>) -> TypeExpr {
    let text = if args.is_empty() {
        format!("{}{}", prefix, ident)
    } else {
        let inner: Vec<String> = args.iter().map(|a| a.text.clone()).collect();
        format!("{}{}<{}>", prefix, ident, inner.join(","))
    };
    let shape_args = if args.is_empty() {
        PathArgs::Bare
    } else {
        PathArgs::Angle(args.into_iter().map(GenericArg::Type).collect())
    };
    TypeExpr { text, span: span(), shape: TypeShape::Path { ident: ident.to_string(), args: shape_args } }
}

fn path(ident: &str, args: Vec<TypeExpr>) -> TypeExpr {
    qualified("", ident, args)
}

fn named(ident: &str) -> TypeExpr {
    path(ident, vec![])
}

fn unit() -> TypeExpr {
    TypeExpr { text: "()".to_string(), span: span(), shape: TypeShape::Tuple(vec![]) }
}

/// `impl Trait` and other non-path types.
fn opaque(text: &str) -> TypeExpr {
    TypeExpr { text: text.to_string(), span: span(), shape: TypeShape::Other }
}

/// How a type reads in a message; a missing output is the unit type.
fn display(t: Option<&TypeExpr>) -> String {
    match t {
        Some(t) => t.text.clone(),
        None => "()".to_string(),
    }
}

fn handler(is_async: bool, inputs: Vec<TypeExpr>, output: Option<TypeExpr>) -> FnSig {
    FnSig { name: "handler".to_string(), span: span(), is_async, inputs, output }
}

fn sig(f: &FnSig) -> HandlerSignature<'_> {
    extract_handler_signature(f).ok().unwrap()
}

fn sig_err(f: &FnSig) -> String {
    extract_handler_signature(f).err().unwrap().to_string()
}

// --- wrapper matching ---

#[test]
fn qualified_json() {
    let ty = qualified("axum::extract::", "Json", vec![named("Planet")]);
    let m = try_extract_wrapper(&ty, JSON).unwrap();
    assert!(m.first_type().is_some());
}

#[test]
fn wrapper_without_args_returns_none() {
    let ty = named("Json");
    assert!(try_extract_wrapper(&ty, JSON).is_none());
}

#[test]
fn unit_type_is_primitive() {
    assert!(is_primitive(&unit()));
}

#[test]
fn custom_type_not_primitive() {
    assert!(!is_primitive(&named("Planet")));
    assert!(!is_primitive(&named("AppError")));
}

#[test]
fn primitive_innermost_returns_none() {
    let ty = path("Json", vec![named("String")]);
    assert!(innermost_custom_type(&ty).is_none());
}

#[test]
fn custom_type_at_root_returned_as_is() {
    let ty = named("Planet");
    let inner = innermost_custom_type(&ty).unwrap();
    assert_eq!(display(Some(inner)), "Planet");
}

#[test]
fn second_type_on_result() {
    let ty = path("Result", vec![path("Json", vec![named("Planet")]), named("AppError")]);
    let m = try_extract_wrapper(&ty, RESULT).unwrap();
    let second = m.second_type().unwrap();
    assert_eq!(display(Some(second)), "AppError");
}

#[test]
fn nth_type_indexing() {
    let ty = path("Result", vec![path("Json", vec![named("Planet")]), named("AppError")]);
    let m = try_extract_wrapper(&ty, RESULT).unwrap();
    assert!(m.nth_type(0).is_some());
    assert!(m.nth_type(1).is_some());
    assert!(m.nth_type(2).is_none());
}

// --- handler signatures ---

#[test]
fn result_json_return() {
    let f = handler(true, vec![], Some(path("Result", vec![path("Json", vec![named("Planet")]), named("AppError")])));
    let s = sig(&f);
    assert_eq!(display(s.output_type), "Planet");
    assert_eq!(display(s.error_type), "AppError");
}

#[test]
fn qualified_result_return() {
    let f = handler(
        true,
        vec![],
        Some(qualified("std::result::", "Result", vec![path("Json", vec![named("Planet")]), named("AppError")])),
    );
    let s = sig(&f);
    assert_eq!(display(s.output_type), "Planet");
}

#[test]
fn qualified_json_return() {
    let f = handler(true, vec![], Some(qualified("axum::extract::", "Json", vec![named("Planet")])));
    let s = sig(&f);
    assert_eq!(display(s.output_type), "Planet");
}

#[test]
fn state_param_extracted() {
    let f = handler(true, vec![path("State", vec![named("Db")])], Some(path("Json", vec![named("Planet")])));
    let s = sig(&f);
    assert_eq!(display(s.state_type), "Db");
}

#[test]
fn json_param_extracted() {
    let f = handler(
        true,
        vec![path("Json", vec![named("CreatePlanet")])],
        Some(path("Json", vec![named("Planet")])),
    );
    let s = sig(&f);
    assert_eq!(display(s.input_type), "CreatePlanet");
}

#[test]
fn both_state_and_json_params() {
    let f = handler(
        true,
        vec![path("State", vec![named("Db")]), path("Json", vec![named("CreatePlanet")])],
        Some(path("Result", vec![path("Json", vec![named("Planet")]), named("AppError")])),
    );
    let s = sig(&f);
    assert_eq!(display(s.state_type), "Db");
    assert_eq!(display(s.input_type), "CreatePlanet");
    assert_eq!(display(s.output_type), "Planet");
    assert!(s.error_type.is_some());
}

#[test]
fn sync_function_allowed() {
    let f = handler(false, vec![], Some(path("Json", vec![named("Planet")])));
    let s = sig(&f);
    assert!(!s.is_async);
}

#[test]
fn sse_return_is_streaming() {
    let mut f = handler(
        true,
        vec![path("State", vec![named("AppState")])],
        Some(path("Sse", vec![opaque("implStream<Item=Result<Event,Infallible>>")])),
    );
    f.name = "stream_events".to_string();
    let s = sig(&f);
    assert!(s.is_streaming);
    assert!(s.error_type.is_none());
    assert_eq!(display(s.output_type), "()");
}

#[test]
fn qualified_sse_return_is_streaming() {
    let f = handler(true, vec![], Some(qualified("axum::response::", "Sse", vec![named("SomeStream")])));
    let s = sig(&f);
    assert!(s.is_streaming);
}

#[test]
fn no_return_type_error() {
    let f = handler(true, vec![], None);
    assert!(sig_err(&f).contains("has no return type"));
}

#[test]
fn bare_type_return_error() {
    let f = handler(true, vec![], Some(path("Vec", vec![named("Planet")])));
    assert!(sig_err(&f).contains("return type must be Json<T>"));
}

#[test]
fn result_without_json_inner_error() {
    let f = handler(true, vec![], Some(path("Result", vec![path("Vec", vec![named("Planet")]), named("AppError")])));
    assert!(sig_err(&f).contains("Result's first type argument must be Json<T>"));
}

// --- error data schemas ---

#[test]
fn zod_schema_option() {
    assert_eq!(zod_schema_for_type(&path("Option", vec![named("String")])), "z.string().optional()");
}

#[test]
fn zod_schema_qualified_option() {
    let ty = qualified("core::option::", "Option", vec![named("i32")]);
    assert_eq!(zod_schema_for_type(&ty), "z.number().int().optional()");
}

#[test]
fn zod_schema_vec() {
    assert_eq!(zod_schema_for_type(&path("Vec", vec![named("String")])), "z.array(z.string())");
}

#[test]
fn zod_schema_custom_type() {
    assert_eq!(zod_schema_for_type(&named("Planet")), "PlanetSchema");
}

#[test]
fn zod_schema_value() {
    assert_eq!(zod_schema_for_type(&qualified("serde_json::", "Value", vec![])), "z.any()");
}

#[test]
fn expand_unit_enum() {
    let variants = vec![
        VariantDef { ident: "NotFound".to_string(), fields: VariantFields::Unit },
        VariantDef { ident: "Conflict".to_string(), fields: VariantFields::Unit },
    ];
    let entries = error_variants(&variants);
    assert_eq!(entries[0].name, "NOT_FOUND");
    assert_eq!(entries[1].name, "CONFLICT");
    assert!(entries.iter().all(|e| e.data_schema.is_none()));
}

#[test]
fn test_generate_zod_schema_primitives() {
    assert_eq!(generate_zod_schema_for_type(&named("String")), "z.string()");
    assert_eq!(generate_zod_schema_for_type(&named("i32")), "z.number()");
    assert_eq!(generate_zod_schema_for_type(&named("bool")), "z.boolean()");
}

#[test]
fn test_generate_zod_schema_option() {
    assert_eq!(generate_zod_schema_for_type(&path("Option", vec![named("String")])), "z.string().optional()");
}

#[test]
fn test_generate_zod_schema_vec() {
    assert_eq!(generate_zod_schema_for_type(&path("Vec", vec![named("String")])), "z.array(z.string())");
}

#[test]
fn test_generate_zod_schema_custom() {
    assert_eq!(generate_zod_schema_for_type(&named("Planet")), "PlanetSchema");
}
