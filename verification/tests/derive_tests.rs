use proc_macro2::Span;
use rorpc::procedures::{missing_procedure, ProcedureRegistry};
use rorpc::type_expr::{GenericArg, PathArgs, TypeExpr, TypeShape};
use rorpc::zod_derive::{
    enum_schema, generate_variant_ts, innermost_custom_name, rust_type_to_zod, struct_schema,
    SerdeAttrs, ZodField, ZodRules, ZodVariant, ZodVariantFields,
};
use rorpc::{HttpMethod, RouteMetadata};

fn path(ident: &str, args: Vec<TypeExpr>) -> TypeExpr {
    let text = if args.is_empty() {
        ident.to_string()
    } else {
        let inner: Vec<String> = args.iter().map(|a| a.text.clone()).collect();
        format!("{}<{}>", ident, inner.join(","))
    };
    let shape_args = if args.is_empty() {
        PathArgs::Bare
    } else {
        PathArgs::Angle(args.into_iter().map(GenericArg::Type).collect())
    };
    TypeExpr {
        text,
        span: Span::call_site(),
        shape: TypeShape::Path { ident: ident.to_string(), args: shape_args },
    }
}

fn named(ident: &str) -> TypeExpr {
    path(ident, vec![])
}

fn field(name: &str, ty: TypeExpr) -> ZodField {
    ZodField { name: name.to_string(), ty, serde: SerdeAttrs::default(), rules: ZodRules::none() }
}

#[test]
fn type_expressions_with_rules() {
    let mut rules = ZodRules::none();
    rules.min_length = Some(3);
    rules.max_length = Some(100);
    rules.email = true;
    assert_eq!(rust_type_to_zod(&named("String"), &rules), "z.string().min(3).max(100).email()");
    let mut nums = ZodRules::none();
    nums.min = Some("0".to_string());
    nums.max = Some("100".to_string());
    nums.int = true;
    nums.positive = true;
    assert_eq!(rust_type_to_zod(&named("f64"), &nums), "z.number().int().min(0).max(100).positive()");
    assert_eq!(rust_type_to_zod(&named("i32"), &nums), "z.number().int().min(0).max(100).positive()");
    let mut len = ZodRules::none();
    len.length = Some(12);
    assert_eq!(rust_type_to_zod(&path("Vec", vec![named("String")]), &len), "z.array(z.string()).length(12)");
    assert_eq!(rust_type_to_zod(&path("Option", vec![named("u8")]), &len), "z.number().int().optional()");
    assert_eq!(rust_type_to_zod(&named("Planet"), &ZodRules::none()), "PlanetSchema");
}

#[test]
fn struct_schema_text_and_dependencies() {
    let mut renamed = field("display_name", path("Option", vec![named("String")]));
    renamed.serde.rename = Some("displayName".to_string());
    let mut skipped = field("secret", named("String"));
    skipped.serde.skip = true;
    let fields = vec![
        field("id", named("i32")),
        renamed,
        skipped,
        field("moons", path("Vec", vec![named("Moon")])),
        field("extra", named("Value")),
    ];
    let s = struct_schema("Planet", &fields);
    let expected = [
        "import * as z from \"zod\";",
        "",
        "export const PlanetSchema = z.object({",
        "  id: z.number().int(),",
        "  displayName: z.string().optional(),",
        "  moons: z.array(MoonSchema),",
        "  extra: z.any()",
        "});",
        "",
        "export type Planet = z.infer<typeof PlanetSchema>;",
    ]
    .join("\n");
    assert_eq!(s.ts_code, expected);
    assert_eq!(s.dependent_types, vec!["Moon".to_string()]);
    assert_eq!(innermost_custom_name(&path("Vec", vec![path("Vec", vec![named("Star")])])), Some("Star".to_string()));
}

#[test]
fn variant_texts() {
    assert_eq!(generate_variant_ts("Idle", &ZodVariantFields::Unit), "z.literal(\"Idle\")");
    assert_eq!(
        generate_variant_ts("Count", &ZodVariantFields::Unnamed(vec![field("", named("u32"))])),
        "z.object({ Count: z.number().int() })"
    );
    assert_eq!(
        generate_variant_ts(
            "pair-of",
            &ZodVariantFields::Unnamed(vec![field("", named("u32")), field("", named("bool"))])
        ),
        "z.object({ \"pair-of\": z.tuple([z.number().int(), z.boolean()]) })"
    );
    assert_eq!(
        generate_variant_ts("Moved", &ZodVariantFields::Named(vec![field("x", named("f64"))])),
        "z.object({ Moved: z.object({ x: z.number() }) })"
    );
}

#[test]
fn enum_schema_with_renames() {
    let mut container = SerdeAttrs::default();
    container.rename_all = Some("snake_case".to_string());
    let mut skipped = SerdeAttrs::default();
    skipped.skip = true;
    let mut renamed = SerdeAttrs::default();
    renamed.rename = Some("gone".to_string());
    let variants = vec![
        ZodVariant { ident: "StillHere".to_string(), serde: SerdeAttrs::default(), fields: ZodVariantFields::Unit },
        ZodVariant { ident: "Hidden".to_string(), serde: skipped, fields: ZodVariantFields::Unit },
        ZodVariant { ident: "Left".to_string(), serde: renamed, fields: ZodVariantFields::Unit },
    ];
    let text = enum_schema("Status", &container, &variants);
    let expected = [
        "import * as z from \"zod\";",
        "",
        "export const StatusSchema = z.union([",
        "  z.literal(\"still_here\"),",
        "  z.literal(\"gone\")",
        "]);",
        "",
        "export type Status = z.infer<typeof StatusSchema>;",
    ]
    .join("\n");
    assert_eq!(text, expected);
}

// --- procedure registry ---

#[test]
fn registry_insert_replace_and_lookup() {
    let mut reg: ProcedureRegistry<u32> = ProcedureRegistry::new();
    assert!(reg.is_empty());
    reg.insert("/ping", 1, RouteMetadata::new(HttpMethod::Get, "/ping"));
    reg.insert("/planet/list", 2, RouteMetadata::new(HttpMethod::Post, "/planet/list"));
    reg.insert(String::from("/ping"), 3, RouteMetadata::new(HttpMethod::Put, "/ping"));
    assert_eq!(reg.len(), 2);
    assert!(reg.has("/ping"));
    assert!(!reg.has("/missing"));
    assert_eq!(reg.get("/ping"), Some(&3));
    assert_eq!(reg.get("/planet/list"), Some(&2));
    assert_eq!(reg.get("/missing"), None);
    let mut paths = reg.paths();
    paths.sort();
    assert_eq!(paths, vec!["/ping".to_string(), "/planet/list".to_string()]);
    let routes = reg.routes();
    let ping = routes.iter().find(|(p, _)| p == "/ping").unwrap();
    assert_eq!(ping.1.method, HttpMethod::Put);
}

#[test]
fn missing_procedure_error() {
    let e = missing_procedure("/nope");
    assert_eq!(e.code, "NOT_FOUND");
    assert_eq!(e.message, "No procedure at path: /nope");
    assert_eq!(e.status, Some(404));
}

use rorpc::router_builder::r;

#[test]
fn nested_router_flattens_by_route_path() {
    let planet = r::<u32>()
        .add_procedure(2, RouteMetadata::new(HttpMethod::Post, "/planet/list"))
        .add_procedure(3, RouteMetadata::new(HttpMethod::Post, "/planet/find"));
    let api = r::<u32>()
        .add_procedure(1, RouteMetadata::new(HttpMethod::Get, "/ping"))
        .nest("planet", planet);
    let mut reg: ProcedureRegistry<u32> = ProcedureRegistry::new();
    api.register_procedures("", &mut reg);
    assert_eq!(reg.len(), 3);
    assert_eq!(reg.get("/ping"), Some(&1));
    assert_eq!(reg.get("/planet/list"), Some(&2));
    assert_eq!(reg.get("/planet/find"), Some(&3));
    assert!(!reg.has("planet/list"));
}

#[test]
fn deep_nesting_and_prefix_do_not_change_paths() {
    let users = r::<u32>().add_procedure(7, RouteMetadata::new(HttpMethod::Get, "/api/v1/users/list"));
    let v1 = r::<u32>().nest("users", users);
    let api = r::<u32>().nest("v1", v1);
    let root = r::<u32>().nest("api", api);
    let mut reg: ProcedureRegistry<u32> = ProcedureRegistry::new();
    root.register_procedures("base", &mut reg);
    assert_eq!(reg.len(), 1);
    assert_eq!(reg.get("/api/v1/users/list"), Some(&7));
}

#[test]
fn later_procedure_at_same_path_wins() {
    let b = r::<u32>()
        .add_procedure(1, RouteMetadata::new(HttpMethod::Get, "/ping"))
        .nest("again", r::<u32>().add_procedure(2, RouteMetadata::new(HttpMethod::Post, "/ping")));
    let mut reg: ProcedureRegistry<u32> = ProcedureRegistry::new();
    b.register_procedures("", &mut reg);
    assert_eq!(reg.len(), 1);
    assert_eq!(reg.get("/ping"), Some(&2));
    assert_eq!(reg.routes()[0].1.method, HttpMethod::Post);
    let empty = r::<u32>();
    let mut reg2: ProcedureRegistry<u32> = ProcedureRegistry::new();
    empty.register_procedures("", &mut reg2);
    assert!(reg2.is_empty());
}

use rorpc::diagnostics::Error as Diagnostic;
use rorpc::zod_args::{wrong_value_message, zod_keys, zod_rules_from_args, ZodArg, ZodArgFault};

fn count(n: usize) -> ZodArg {
    ZodArg::Number { count: Some(n), integer: true, bound: n.to_string() }
}

#[test]
fn zod_string_constraints() {
    let args = vec![
        ("min_length".to_string(), count(3)),
        ("max_length".to_string(), count(100)),
        ("email".to_string(), ZodArg::Flag),
    ];
    let attrs = zod_rules_from_args(args).unwrap();
    assert_eq!(attrs.min_length, Some(3));
    assert_eq!(attrs.max_length, Some(100));
    assert!(attrs.email);
}

#[test]
fn zod_number_constraints() {
    // The bounds 0.0 and 100.0, as `f64` writes them.
    let args = vec![
        ("min".to_string(), ZodArg::Number { count: Some(0), integer: true, bound: format!("{}", 0.0f64) }),
        ("max".to_string(), ZodArg::Number { count: Some(100), integer: true, bound: format!("{}", 100.0f64) }),
        ("int".to_string(), ZodArg::Flag),
        ("positive".to_string(), ZodArg::Flag),
    ];
    let attrs = zod_rules_from_args(args).unwrap();
    assert_eq!(attrs.min, Some("0".to_string()));
    assert_eq!(attrs.max, Some("100".to_string()));
    assert!(attrs.int);
    assert!(attrs.positive);
}

#[test]
fn zod_unknown_key_returns_error() {
    let args = vec![("unknown_key".to_string(), ZodArg::Flag)];
    let fault = zod_rules_from_args(args).err().unwrap();
    assert_eq!(fault, ZodArgFault::UnknownKey(0));
    let err = Diagnostic::unknown_key(Span::call_site(), "unknown_key", zod_keys());
    assert!(err.to_string().contains("unknown key"));
}

#[test]
fn zod_wrong_value_kinds() {
    let text_for_count = vec![("email".to_string(), ZodArg::Flag), ("length".to_string(), ZodArg::Text("x".to_string()))];
    assert_eq!(zod_rules_from_args(text_for_count).err().unwrap(), ZodArgFault::WrongValue(1));
    let float_for_count = vec![("max_length".to_string(), ZodArg::Number { count: None, integer: false, bound: "1.5".to_string() })];
    assert_eq!(zod_rules_from_args(float_for_count).err().unwrap(), ZodArgFault::WrongValue(0));
    let value_for_flag = vec![("url".to_string(), ZodArg::Text("x".to_string()))];
    assert_eq!(zod_rules_from_args(value_for_flag).err().unwrap(), ZodArgFault::WrongValue(0));
    assert_eq!(wrong_value_message("min", &ZodArg::Text("x".to_string())), "expected a numeric literal");
    assert_eq!(wrong_value_message("min", &ZodArg::Flag), "expected `= <number>` or `(<number>)`");
    assert_eq!(wrong_value_message("regex", &ZodArg::Flag), "expected `= \"value\"` or `(\"value\")`");
    assert_eq!(wrong_value_message("length", &ZodArg::Text("x".to_string())), "expected integer literal");
    assert_eq!(wrong_value_message("length", &ZodArg::Flag), "expected `= <integer>` or `(<integer>)`");
    let huge = ZodArg::Number { count: None, integer: true, bound: "1e30".to_string() };
    assert_eq!(wrong_value_message("max_length", &huge), "number too large to fit in target type");
    assert_eq!(wrong_value_message("starts_with", &ZodArg::Other), "expected string literal");
    assert_eq!(wrong_value_message("email", &ZodArg::Text("x".to_string())), "expected `,`");
    let all = vec![
        ("starts_with".to_string(), ZodArg::Text("a".to_string())),
        ("regex".to_string(), ZodArg::Text("^a".to_string())),
        ("length".to_string(), count(2)),
        ("length".to_string(), count(4)),
        ("finite".to_string(), ZodArg::Flag),
    ];
    let r = zod_rules_from_args(all).unwrap();
    assert_eq!(r.starts_with, Some("a".to_string()));
    assert_eq!(r.regex, Some("^a".to_string()));
    assert_eq!(r.length, Some(4));
    assert!(r.finite && !r.email);
}

// --- #[serde(..)] keys ---

use rorpc::serde_args::{serde_attrs_from_args, serde_shape, SerdeShape, SerdeValue};

fn text(key: &str, value: &str) -> (String, SerdeValue) {
    (key.to_string(), SerdeValue::Text(value.to_string()))
}

fn bare(key: &str) -> (String, SerdeValue) {
    (key.to_string(), SerdeValue::Nothing)
}

#[test]
fn serde_rename_simple() {
    let attrs = serde_attrs_from_args(vec![text("rename", "planet_name")]);
    assert_eq!(attrs.rename, Some("planet_name".to_string()));
}

#[test]
fn serde_rename_all() {
    let attrs = serde_attrs_from_args(vec![text("rename_all", "camelCase")]);
    assert_eq!(attrs.rename_all, Some("camelCase".to_string()));
}

#[test]
fn serde_skip() {
    let attrs = serde_attrs_from_args(vec![bare("skip")]);
    assert!(attrs.skip);
}

#[test]
fn serde_default() {
    let attrs = serde_attrs_from_args(vec![bare("default")]);
    assert!(attrs.default);
}

#[test]
fn serde_unknown_key_ignored() {
    assert_eq!(serde_shape("some_future_key"), SerdeShape::Ignored);
    let attrs = serde_attrs_from_args(vec![bare("some_future_key")]);
    assert_eq!(attrs, SerdeAttrs::default());
}

#[test]
fn non_serde_attr_ignored() {
    let attrs = serde_attrs_from_args(vec![]);
    assert_eq!(attrs, SerdeAttrs::default());
}

#[test]
fn serde_rename_prefers_deserialize_and_skip_serializing_skips() {
    let both = SerdeValue::Renames { serialize: Some("a".to_string()), deserialize: Some("b".to_string()) };
    assert_eq!(serde_attrs_from_args(vec![("rename".to_string(), both)]).rename, Some("b".to_string()));
    let ser = SerdeValue::Renames { serialize: Some("a".to_string()), deserialize: None };
    assert_eq!(serde_attrs_from_args(vec![("rename".to_string(), ser)]).rename, Some("a".to_string()));
    let none = SerdeValue::Renames { serialize: None, deserialize: None };
    assert_eq!(serde_attrs_from_args(vec![("rename".to_string(), none)]).rename, Some(String::new()));
    assert!(serde_attrs_from_args(vec![bare("skip_serializing")]).skip);
    assert_eq!(serde_shape("rename"), SerdeShape::Rename);
    assert_eq!(serde_shape("rename_all"), SerdeShape::Text);
    assert_eq!(serde_shape("skip_serializing"), SerdeShape::NoValue);
    assert_eq!(serde_shape("default"), SerdeShape::OptionalExpr);
    let last = serde_attrs_from_args(vec![text("rename", "x"), text("rename", "y")]);
    assert_eq!(last.rename, Some("y".to_string()));
}
