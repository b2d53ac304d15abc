use proc_macro2::Span;
use rorpc::attr_args::{
    handler_args_from_pairs, parse_handler_args, HandlerArgsFault, MetaPair, MetaValue,
};
use rorpc::expand::{fallback_schemas, handler_record};
use rorpc::signature::{extract_handler_signature, FnSig};
use rorpc::type_expr::{GenericArg, PathArgs, TypeExpr, TypeShape};

fn span() -> Span {
    Span::call_site()
}

fn qualified(prefix: &str, ident: &str, args: Vec<TypeExpr>) -> TypeExpr {
    let text = if args.is_empty() {
        format!("{}{}", prefix, ident)
    } else {
        let inner: Vec<String> = args.iter().map(|a| a.text.clone()).collect();
        format!("{}{}<{}>", prefix, ident, inner.join(","))
    };
    let shape_args = if args.is_empty() {
        PathArgs::Bare
    } else {
        PathArgs::Angle(args.into_iter().map(GenericArg::Type).collect())
    };
    TypeExpr { text, span: span(), shape: TypeShape::Path { ident: ident.to_string(), args: shape_args } }
}

fn path(ident: &str, args: Vec<TypeExpr>) -> TypeExpr {
    qualified("", ident, args)
}

fn named(ident: &str) -> TypeExpr {
    path(ident, vec![])
}

fn string_pair(key: &str, value: &str) -> MetaPair {
    MetaPair { key: key.to_string(), span: span(), value: MetaValue::Str(value.to_string()) }
}

fn type_pair(key: &str, ty: TypeExpr) -> MetaPair {
    MetaPair { key: key.to_string(), span: span(), value: MetaValue::Path(ty) }
}

fn other_pair(key: &str) -> MetaPair {
    MetaPair { key: key.to_string(), span: span(), value: MetaValue::Other }
}

fn handler(name: &str, inputs: Vec<TypeExpr>, output: Option<TypeExpr>) -> FnSig {
    FnSig { name: name.to_string(), span: span(), is_async: true, inputs, output }
}

#[test]
fn parse_stream_event_type_path() {
    let pairs = vec![
        string_pair("method", "GET"),
        string_pair("path", "/stream"),
        type_pair("stream_event", named("StreamEvent")),
    ];
    let args = handler_args_from_pairs(&pairs).unwrap();
    assert_eq!(args.method, "GET");
    assert_eq!(args.path, "/stream");
    assert!(args.stream_event.is_some());
    assert_eq!(args.stream_event.unwrap(), "StreamEvent");
}

#[test]
fn parse_stream_event_qualified_path() {
    let pairs = vec![
        string_pair("method", "GET"),
        string_pair("path", "/stream"),
        type_pair("stream_event", qualified("crate::models::", "StreamEvent", vec![])),
    ];
    let args = handler_args_from_pairs(&pairs).unwrap();
    assert!(args.stream_event.is_some());
    assert_eq!(args.stream_event.unwrap(), "crate::models::StreamEvent");
}

#[test]
fn parse_without_stream_event() {
    let pairs = vec![string_pair("method", "POST"), string_pair("path", "/create")];
    let args = handler_args_from_pairs(&pairs).unwrap();
    assert_eq!(args.method, "POST");
    assert_eq!(args.path, "/create");
    assert!(args.stream_event.is_none());
}

#[test]
fn stream_event_type_converts_to_string_literal() {
    let pairs = vec![
        string_pair("method", "GET"),
        string_pair("path", "/stream"),
        type_pair("stream_event", named("StreamEvent")),
    ];
    let args = handler_args_from_pairs(&pairs).unwrap();
    let f = handler(
        "stream_test",
        vec![],
        Some(path("Sse", vec![TypeExpr { text: "implStream<Item=Event>".to_string(), span: span(), shape: TypeShape::Other }])),
    );
    let sig = extract_handler_signature(&f).ok().unwrap();
    let record = handler_record(&args, &sig, &f);
    assert_eq!(record.stream_event_type_name, Some("StreamEvent".to_string()));
    assert_eq!(record.output_type_name, "()");
    assert_eq!(record.error_type_name, None);
}

#[test]
fn handler_args_method_is_upper_cased_and_last_wins() {
    let pairs = vec![
        string_pair("method", "post"),
        string_pair("path", "/a"),
        string_pair("path", "/b"),
    ];
    let args = handler_args_from_pairs(&pairs).unwrap();
    assert_eq!(args.method, "POST");
    assert_eq!(args.path, "/b");
}

#[test]
fn handler_args_faults() {
    let not_string = vec![other_pair("method"), string_pair("path", "/x")];
    assert_eq!(handler_args_from_pairs(&not_string).err().unwrap(), HandlerArgsFault::NotString(0));
    let not_path = vec![string_pair("method", "GET"), string_pair("stream_event", "Event")];
    assert_eq!(handler_args_from_pairs(&not_path).err().unwrap(), HandlerArgsFault::NotTypePath(1));
    let unknown = vec![string_pair("method", "GET"), string_pair("route", "/x")];
    assert_eq!(handler_args_from_pairs(&unknown).err().unwrap(), HandlerArgsFault::UnknownKey(1));
    let no_method = vec![string_pair("path", "/x")];
    assert_eq!(handler_args_from_pairs(&no_method).err().unwrap(), HandlerArgsFault::MissingMethod);
    let no_path = vec![string_pair("method", "GET")];
    assert_eq!(handler_args_from_pairs(&no_path).err().unwrap(), HandlerArgsFault::MissingPath);
}

#[test]
fn handler_args_diagnostics() {
    let not_string = vec![other_pair("path")];
    let msg = parse_handler_args(&not_string).err().unwrap().to_string();
    assert!(msg.contains("invalid value for `path`"));
    assert!(msg.contains("a string literal"));
    assert!(msg.contains("non-string expression"));
    let unknown = vec![string_pair("route", "/x")];
    let msg = parse_handler_args(&unknown).err().unwrap().to_string();
    assert!(msg.contains("unknown key `route`"));
    assert!(msg.contains("method, path, stream_event"));
    let not_path = vec![other_pair("stream_event")];
    let msg = parse_handler_args(&not_path).err().unwrap().to_string();
    assert!(msg.contains("stream_event must be a type path"));
    let msg = parse_handler_args(&[string_pair("path", "/x")]).err().unwrap().to_string();
    assert!(msg.contains("missing required attribute `method`"));
    assert!(msg.contains("add `method = \"GET\"` to #[rorpc]"));
    let msg = parse_handler_args(&[string_pair("method", "GET")]).err().unwrap().to_string();
    assert!(msg.contains("missing required attribute `path`"));
}

#[test]
fn handler_record_fields() {
    let pairs = vec![string_pair("method", "post"), string_pair("path", "/planet/create")];
    let args = handler_args_from_pairs(&pairs).unwrap();
    let f = handler(
        "create_planet",
        vec![path("State", vec![named("Db")]), path("Query", vec![named("Filter")]), path("Json", vec![named("NewPlanet")])],
        Some(path("Result", vec![path("Json", vec![named("Planet")]), named("AppError")])),
    );
    let sig = extract_handler_signature(&f).ok().unwrap();
    let r = handler_record(&args, &sig, &f);
    assert_eq!(r.name, "create_planet");
    assert_eq!(r.method, "POST");
    assert_eq!(r.path, "/planet/create");
    assert_eq!(r.input_type_name, "NewPlanet");
    assert_eq!(r.query_type_name, Some("Filter".to_string()));
    assert_eq!(r.output_type_name, "Planet");
    assert_eq!(r.error_type_name, Some("AppError".to_string()));
    assert_eq!(r.stream_event_type_name, None);
    let bare = handler("ping", vec![], Some(path("Json", vec![named("String")])));
    let sig = extract_handler_signature(&bare).ok().unwrap();
    assert_eq!(handler_record(&args, &sig, &bare).input_type_name, "()");
}

#[test]
fn fallback_schemas_for_custom_types() {
    let f = handler(
        "update",
        vec![
            path("Json", vec![named("NewPlanet")]),
            path("Query", vec![named("Filter")]),
            path("Json", vec![named("String")]),
        ],
        Some(path("Result", vec![path("Json", vec![path("Vec", vec![named("NewPlanet")])]), named("AppError")])),
    );
    let schemas = fallback_schemas(&f);
    let names: Vec<&str> = schemas.iter().map(|s| s.rust_type.as_str()).collect();
    assert_eq!(names, vec!["NewPlanet", "Filter"]);
    assert_eq!(schemas[0].zod_ts, "z.unknown() /* add #[derive(ZodTs)] to NewPlanet for a real schema */");
    let plain = handler("ping", vec![], Some(path("Json", vec![named("String")])));
    assert!(fallback_schemas(&plain).is_empty());
    let output_only = handler("get", vec![], Some(path("Json", vec![named("Planet")])));
    assert_eq!(fallback_schemas(&output_only)[0].rust_type, "Planet");
}

// --- #[orpc] type names ---

use rorpc::attr_args::{orpc_args_from_pairs, AttrPair};
use rorpc::macro_names::{
    extract_error_type_name, extract_input_type_name, extract_json_from_return, extract_json_inner,
    extract_output_type_name, extract_state_type, is_primitive_str, orpc_record,
    schema_registration_names,
};

#[test]
fn json_inner_of_type_text() {
    assert_eq!(extract_json_inner("Json<Planet>"), Some("Planet".to_string()));
    assert_eq!(extract_json_inner("axum::Json<Planet>"), Some("Planet".to_string()));
    assert_eq!(extract_json_inner("axum::extract::Json<Vec<Planet>>"), Some("Vec<Planet>".to_string()));
    assert_eq!(extract_json_inner("Json<Vec<Planet>>"), Some("Vec<Planet>".to_string()));
    assert_eq!(extract_json_inner("Query<Filter>"), None);
}

#[test]
fn primitive_type_names() {
    for n in ["()", "String", "str", "i32", "u64", "f64", "bool", "usize", "isize"] {
        assert!(is_primitive_str(n), "{} should be primitive", n);
    }
    assert!(!is_primitive_str("Planet"));
    assert!(!is_primitive_str("i128"));
}

#[test]
fn orpc_type_names() {
    let inputs = vec![path("State", vec![named("Db")]), path("Json", vec![named("NewPlanet")])];
    assert_eq!(extract_input_type_name(&inputs), "NewPlanet");
    assert_eq!(extract_input_type_name(&vec![path("State", vec![named("Db")])]), "()");
    assert_eq!(extract_state_type(&inputs).unwrap().text, "Db");
    assert!(extract_state_type(&vec![]).is_none());
    let out = Some(path("Result", vec![path("Json", vec![named("Planet")]), named("AppError")]));
    assert_eq!(extract_output_type_name(&out), "Result<Json<Planet>,AppError>");
    assert_eq!(extract_output_type_name(&None), "()");
    assert_eq!(extract_error_type_name(&out), Some("AppError".to_string()));
    assert_eq!(extract_error_type_name(&Some(path("Json", vec![named("Planet")]))), None);
    assert_eq!(extract_json_from_return(out.as_ref().unwrap()).unwrap().text, "Planet");
}

#[test]
fn orpc_schema_registrations() {
    let inputs = vec![path("Json", vec![named("NewPlanet")]), path("Json", vec![named("String")])];
    let out = Some(path("Json", vec![path("Vec", vec![named("Planet")])]));
    assert_eq!(schema_registration_names(&inputs, &out), vec!["NewPlanet".to_string(), "Planet".to_string()]);
    let dup = Some(path("Json", vec![named("NewPlanet")]));
    assert_eq!(schema_registration_names(&inputs, &dup), vec!["NewPlanet".to_string()]);
    let unparsable = Some(path("Json", vec![path("Vec", vec![path("HashMap", vec![named("K"), named("V")])])]));
    assert!(schema_registration_names(&vec![], &unparsable).is_empty());
}

#[test]
fn orpc_record_fields() {
    let pairs = vec![
        AttrPair { key: "method".to_string(), value: Some("get".to_string()) },
        AttrPair { key: "path".to_string(), value: Some("/planet/list".to_string()) },
    ];
    let args = orpc_args_from_pairs(&pairs).unwrap();
    let f = handler("list_planets", vec![path("State", vec![named("Db")])], Some(path("Json", vec![path("Vec", vec![named("Planet")])])));
    let r = orpc_record(&args, &f);
    assert_eq!(r.name, "list_planets");
    assert_eq!(r.method, "GET");
    assert_eq!(r.path, "/planet/list");
    assert_eq!(r.input_type_name, "()");
    assert_eq!(r.output_type_name, "Json<Vec<Planet>>");
    assert_eq!(r.error_type_name, None);
}

#[test]
fn data_key_names_the_stream_event() {
    let pairs = vec![
        string_pair("method", "GET"),
        string_pair("path", "/stream"),
        string_pair("data", "StreamEvent"),
    ];
    let args = handler_args_from_pairs(&pairs).unwrap();
    assert_eq!(args.stream_event, Some("StreamEvent".to_string()));
    let not_string = vec![string_pair("method", "GET"), string_pair("path", "/s"), other_pair("data")];
    assert_eq!(handler_args_from_pairs(&not_string).err().unwrap(), HandlerArgsFault::NotString(2));
    let msg = parse_handler_args(&not_string).err().unwrap().to_string();
    assert!(msg.contains("invalid value for `data`"));
}

#[test]
fn handler_record_path_parameters() {
    let pairs = vec![string_pair("method", "GET"), string_pair("path", "/planet/{id}")];
    let args = handler_args_from_pairs(&pairs).unwrap();
    let single = handler("find", vec![path("Path", vec![named("i32")])], Some(path("Json", vec![named("Planet")])));
    let sig = extract_handler_signature(&single).ok().unwrap();
    assert_eq!(handler_record(&args, &sig, &single).path_param_types, "i32");
    let pair_ty = TypeExpr {
        text: "(i32,String)".to_string(),
        span: span(),
        shape: TypeShape::Tuple(vec![named("i32"), named("String")]),
    };
    let two = handler("both", vec![path("Path", vec![pair_ty])], Some(path("Json", vec![named("Planet")])));
    let sig = extract_handler_signature(&two).ok().unwrap();
    assert_eq!(handler_record(&args, &sig, &two).path_param_types, "i32,String");
    let none = handler("ping", vec![], Some(path("Json", vec![named("String")])));
    let sig = extract_handler_signature(&none).ok().unwrap();
    assert_eq!(handler_record(&args, &sig, &none).path_param_types, "");
}
