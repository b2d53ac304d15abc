use rorpc::codegen::contract::{
    extract_namespace, extract_path_params, generate_contract, handler_key,
    merge_path_and_query_schema,
};
use rorpc::codegen::typescript::{
    base_type_name, generate_imports, generate_placeholder_schemas, generate_real_schemas,
    generate_schemas, is_primitive, parse_zod_object_fields, rust_type_to_ts_schema,
    to_schema_name,
};
use rorpc::codegen::{
    has_parent_dir, ContractBuilder, ErrorInfo, ErrorVariantInfo, HandlerInfo, SchemaEntry,
};
use rorpc::types::{extract_first_generic_arg_string, is_primitive_type_name};

fn make_handler(name: &'static str, method: &'static str, path: &'static str) -> HandlerInfo {
    HandlerInfo {
        name,
        method,
        path,
        input_type_name: "()",
        query_type_name: None,
        output_type_name: "String",
        rust_module: "test::handlers",
        error_type_name: None,
        stream_event_type_name: None,
        path_param_types: "",
    }
}

// --- contract ---

#[test]
fn contract_handler_key_camel_case() {
    assert_eq!(handler_key("list_planets"), "listPlanets");
    assert_eq!(handler_key("get_profile"), "getProfile");
    assert_eq!(handler_key("ping"), "ping");
}

#[test]
fn handler_key_camel_case() {
    assert_eq!(handler_key("list_planets"), "listPlanets");
    assert_eq!(handler_key("get_profile"), "getProfile");
    assert_eq!(handler_key("ping"), "ping");
}

#[test]
fn namespace_extraction() {
    assert_eq!(extract_namespace("/planet/list"), "planet");
    assert_eq!(extract_namespace("/ping"), "");
    assert_eq!(extract_namespace("/user/profile"), "user");
}

#[test]
fn contract_namespace_extraction() {
    assert_eq!(extract_namespace("/planet/list"), "planet");
    assert_eq!(extract_namespace("/ping"), "");
    assert_eq!(extract_namespace("/user/profile"), "user");
}

#[test]
fn extract_single_path_param() {
    assert_eq!(extract_path_params("/planet/{id}"), vec!["id"]);
}

#[test]
fn extract_multiple_path_params() {
    assert_eq!(
        extract_path_params("/workspace/{wsId}/project/{projId}"),
        vec!["wsId", "projId"]
    );
}

#[test]
fn extract_catch_all_param() {
    assert_eq!(extract_path_params("/files/{+path}"), vec!["path"]);
}

#[test]
fn no_path_params() {
    assert_eq!(extract_path_params("/planet/list"), Vec::<String>::new());
}

#[test]
fn merges_path_and_query_params() {
    let schemas = vec![SchemaEntry {
        rust_type: "FindPlanetQuery",
        zod_ts: "export const FindPlanetQuerySchema = z.object({ id: z.number().int(), q: z.string().optional() });".to_string(),
    }];
    let merged = merge_path_and_query_schema("/planet/{id}", "FindPlanetQuerySchema", "i32", &schemas);
    assert!(merged.contains("z.object({"));
    assert!(merged.contains("id: z.number().int()"));
    assert!(merged.contains(".extend(FindPlanetQuerySchema.shape)"));
}

#[test]
fn merge_without_path_params_is_unchanged() {
    assert_eq!(merge_path_and_query_schema("/planet/list", "PlanetSchema", "", &[]), "PlanetSchema");
}

#[test]
fn merge_exact_text() {
    assert_eq!(
        merge_path_and_query_schema("/ws/{wsId}/p/{pId}", "QSchema", "i64,String", &[]),
        "z.object({ wsId: z.number().int(), pId: z.string() }).extend(QSchema.shape)"
    );
}

#[test]
fn contract_contains_handlers() {
    let mut list = make_handler("list_planets", "POST", "/planet/list");
    list.output_type_name = "Vec<Planet>";
    list.rust_module = "handlers::planet";
    let mut ping = make_handler("ping", "GET", "/ping");
    ping.rust_module = "handlers";
    let output = generate_contract(&[list, ping], &[], &[]);
    assert!(output.contains("listPlanets"));
    assert!(output.contains("ping"));
    assert!(output.contains("/planet/list"));
    assert!(output.contains("as const"));
}

#[test]
fn contract_contract_contains_handlers() {
    let mut list = make_handler("list_planets", "POST", "/planet/list");
    list.output_type_name = "Vec<Planet>";
    list.rust_module = "handlers::planet";
    let mut ping = make_handler("ping", "GET", "/ping");
    ping.rust_module = "handlers";
    let handlers = vec![list, ping];
    let output = generate_contract(&handlers, &[], &[]);
    assert!(output.contains("listPlanets"));
    assert!(output.contains("ping"));
    assert!(output.contains("/planet/list"));
    assert!(output.contains("as const"));
}

#[test]
fn contract_exact_text_with_errors() {
    let mut find = make_handler("find_planet", "GET", "/planet/{id}");
    find.query_type_name = Some("FindQuery");
    find.output_type_name = "Json<Planet>";
    find.error_type_name = Some("AppError");
    find.path_param_types = "i32";
    let ping = make_handler("ping", "GET", "/ping");
    let errors = vec![ErrorInfo {
        rust_type: "AppError",
        variants: vec![
            ErrorVariantInfo { name: "NOT_FOUND", data_schema: None },
            ErrorVariantInfo { name: "INVALID", data_schema: Some("z.string()") },
        ],
    }];
    let output = generate_contract(&[find, ping], &errors, &[]);
    let expected = [
        "export const contract = {",
        "  ping: oc",
        "      .meta(openapi({ method: \"GET\", path: \"/ping\" }))",
        "      .output(z.string()),",
        "  planet: {",
        "    findPlanet: oc",
        "      .meta(openapi({ method: \"GET\", path: \"/planet/{id}\" }))",
        "      .input(z.object({ id: z.number().int() }).extend(FindQuerySchema.shape))",
        "      .output(PlanetSchema)",
        "      .errors({",
        "        NOT_FOUND: {},",
        "        INVALID: {",
        "          data: z.string()",
        "        }",
        "      }),",
        "  },",
        "} as const;",
        "",
        "export type Contract = typeof contract;",
    ]
    .join("\n");
    assert_eq!(output, expected);
}

#[test]
fn contract_streaming_output() {
    let mut events = make_handler("watch", "POST", "/events/watch");
    events.stream_event_type_name = Some("Tick");
    let output = generate_contract(&[events], &[], &[]);
    assert!(output.contains(".output(asyncIteratorObject(TickSchema))"));
}

// --- typescript ---

#[test]
fn primitive_check() {
    assert!(is_primitive_type_name("String"));
    assert!(is_primitive_type_name("()"));
    assert!(!is_primitive_type_name("Planet"));
}

#[test]
fn primitive_string_is_primitive() {
    assert!(is_primitive("String"));
    assert!(is_primitive("()"));
    assert!(!is_primitive("Planet"));
}

#[test]
fn json_planet() {
    assert_eq!(rust_type_to_ts_schema("Json<Planet>"), "PlanetSchema");
}

#[test]
fn json_vec_planet() {
    assert_eq!(rust_type_to_ts_schema("Json<Vec<Planet>>"), "z.array(PlanetSchema)");
}

#[test]
fn result_json_planet() {
    assert_eq!(rust_type_to_ts_schema("Result<Json<Planet>,StatusCode>"), "PlanetSchema");
}

#[test]
fn json_string() {
    assert_eq!(rust_type_to_ts_schema("Json<String>"), "z.string()");
}

#[test]
fn unit_type() {
    assert_eq!(rust_type_to_ts_schema("()"), "");
}

#[test]
fn serde_json_value() {
    assert_eq!(rust_type_to_ts_schema("Json<serde_json::Value>"), "z.any()");
}

#[test]
fn ts_schema_option_and_spaces() {
    assert_eq!(rust_type_to_ts_schema("Option< u8 >"), "z.number().int().optional()");
    assert_eq!(rust_type_to_ts_schema("Vec<()>"), "z.array(z.unknown())");
    assert_eq!(rust_type_to_ts_schema("f64"), "z.number()");
    assert_eq!(rust_type_to_ts_schema("bool"), "z.boolean()");
}

#[test]
fn schema_name_simple() {
    assert_eq!(to_schema_name("Planet"), "PlanetSchema");
}

#[test]
fn schema_name_vec() {
    assert_eq!(to_schema_name("Vec<Planet>"), "PlanetSchema");
}

#[test]
fn schema_name_module_path() {
    assert_eq!(to_schema_name("models::Planet"), "PlanetSchema");
}

#[test]
fn typescript_schema_name_simple() {
    assert_eq!(to_schema_name("Planet"), "PlanetSchema");
}

#[test]
fn typescript_schema_name_vec() {
    assert_eq!(to_schema_name("Vec<Planet>"), "PlanetSchema");
}

#[test]
fn typescript_schema_name_module_path() {
    assert_eq!(to_schema_name("models::Planet"), "PlanetSchema");
}

#[test]
fn base_type_name_strips_wrappers() {
    assert_eq!(base_type_name("Option<models::Planet>"), "Planet");
}

#[test]
fn parse_simple_zod_object() {
    let schema = "z.object({ id: z.number().int(), name: z.string() })";
    let fields = parse_zod_object_fields(schema).unwrap();
    assert_eq!(fields.get("id"), Some(&"z.number().int()".to_string()));
    assert_eq!(fields.get("name"), Some(&"z.string()".to_string()));
}

#[test]
fn parse_zod_object_with_optional() {
    let schema = "z.object({ id: z.number().int(), q: z.string().optional() })";
    let fields = parse_zod_object_fields(schema).unwrap();
    assert_eq!(fields.get("id"), Some(&"z.number().int()".to_string()));
    assert_eq!(fields.get("q"), Some(&"z.string().optional()".to_string()));
}

#[test]
fn non_object_schema_returns_none() {
    assert!(parse_zod_object_fields("z.string()").is_none());
    assert!(parse_zod_object_fields("z.array(z.number())").is_none());
}

#[test]
fn zod_object_nested_and_repeated_fields() {
    let fields =
        parse_zod_object_fields("  z.object({ a: z.object({ b: z.string(), c: z.number() }), a: z.boolean() })  ")
            .unwrap();
    assert_eq!(fields.get("a"), Some(&"z.boolean()".to_string()));
    assert_eq!(fields.get("b"), None);
    assert_eq!(fields.get("c"), None);
}

#[test]
fn imports_block() {
    assert_eq!(
        generate_imports(),
        "import { z } from \"zod\";\nimport { oc } from \"@orpc/contract\";\nimport { openapi } from \"@orpc/openapi\";\nimport { asyncIteratorObject } from \"@orpc/contract\";"
    );
}

#[test]
fn real_schemas_skip_fallbacks_and_imports() {
    let schemas = vec![
        SchemaEntry {
            rust_type: "Planet",
            zod_ts: "import * as z from \"zod\";\n\nexport const PlanetSchema = z.object({ id: z.number() });\n".to_string(),
        },
        SchemaEntry { rust_type: "Moon", zod_ts: "export const MoonSchema = z.unknown();".to_string() },
        SchemaEntry { rust_type: "Star", zod_ts: "  import x from \"y\";\r\nexport const StarSchema = z.string();".to_string() },
    ];
    assert_eq!(
        generate_real_schemas(&schemas),
        "export const PlanetSchema = z.object({ id: z.number() });\n\nexport const StarSchema = z.string();"
    );
}

#[test]
fn placeholder_schemas_sorted_and_unique() {
    let mut a = make_handler("a", "GET", "/a");
    a.output_type_name = "Planet";
    let mut b = make_handler("b", "POST", "/b");
    b.input_type_name = "Moon";
    b.output_type_name = "Planet";
    let out = generate_placeholder_schemas(&[a, b]);
    let expected = [
        "// \u{26a0}\u{fe0f}  Placeholder schemas \u{2014} add #[derive(ZodTs)] to your types for real schemas",
        "",
        "// TODO: add #[derive(ZodTs)] to Moon in Rust",
        "export const MoonSchema = z.unknown(); // Moon",
        "export type Moon = z.infer<typeof MoonSchema>;",
        "",
        "// TODO: add #[derive(ZodTs)] to Planet in Rust",
        "export const PlanetSchema = z.unknown(); // Planet",
        "export type Planet = z.infer<typeof PlanetSchema>;",
        "",
    ]
    .join("\n");
    assert_eq!(out, expected);
    assert_eq!(generate_placeholder_schemas(&[make_handler("p", "GET", "/p")]), "");
}

#[test]
fn schemas_declare_handler_types() {
    let mut a = make_handler("a", "GET", "/a");
    a.output_type_name = "Planet";
    let out = generate_schemas(&[a]);
    assert!(out.starts_with("import { z } from \"zod\";"));
    assert!(out.contains("export const PlanetSchema = z.unknown(); // Planet"));
    assert!(out.contains("export type Planet = z.infer<typeof PlanetSchema>;"));
    assert!(!out.contains("StringSchema"));
}

#[test]
fn first_generic_arg() {
    assert_eq!(extract_first_generic_arg_string("Result<T, E>"), Some("T".to_string()));
    assert_eq!(extract_first_generic_arg_string("Vec<Planet>"), Some("Planet".to_string()));
    assert_eq!(
        extract_first_generic_arg_string("Result<Json<Planet>, E>"),
        Some("Json<Planet>".to_string())
    );
    assert_eq!(extract_first_generic_arg_string("NoGenerics"), None);
}

// --- contract builder ---

#[test]
fn generates_with_no_schemas() {
    let builder = ContractBuilder::new(vec![make_handler("ping", "GET", "/ping")], vec![]);
    let output = builder.generate();
    assert!(output.contains("AUTO-GENERATED"));
    assert!(output.contains("ping"));
}

#[test]
fn generates_with_real_schemas() {
    let builder = ContractBuilder::new(
        vec![make_handler("list_planets", "POST", "/planet/list")],
        vec![SchemaEntry {
            rust_type: "Planet",
            zod_ts: "export const PlanetSchema = z.object({ id: z.number().int(), name: z.string() });\nexport type Planet = z.infer<typeof PlanetSchema>;".to_string(),
        }],
    );
    let output = builder.generate();
    assert!(output.contains("PlanetSchema"));
    assert!(output.contains("z.object"));
    assert!(output.contains("listPlanets"));
}

#[test]
fn builder_placeholders_only_for_missing_types() {
    let mut h = make_handler("list", "POST", "/planet/list");
    h.input_type_name = "Json<Filter>";
    h.output_type_name = "Result<Json<Vec<Planet>>, AppError>";
    let builder = ContractBuilder::new(
        vec![h],
        vec![SchemaEntry { rust_type: "Planet", zod_ts: "export const PlanetSchema = z.object({});".to_string() }],
    )
    .with_errors(vec![]);
    let output = builder.generate();
    assert!(output.contains("export const FilterSchema = z.unknown(); // Filter"));
    assert!(!output.contains("PlanetSchema = z.unknown()"));
    assert!(output.contains("export const PlanetSchema = z.object({});\n\n// \u{26a0}"));
}

#[test]
fn rejects_path_traversal() {
    assert!(has_parent_dir("../../../etc/passwd"));
    assert!(has_parent_dir("out/../x.ts"));
    assert!(!has_parent_dir("../client/src/rpc/index.ts".trim_start_matches("../")));
    assert!(!has_parent_dir("a/...b/c.ts"));
}

#[test]
fn builder_placeholders_for_value_and_wide_integers() {
    let mut h = make_handler("raw", "POST", "/raw");
    h.input_type_name = "serde_json::Value";
    h.output_type_name = "Json<i128>";
    let output = ContractBuilder::new(vec![h], vec![]).with_errors(vec![]).generate();
    assert!(output.contains("= z.unknown(); // serde_json::Value"));
    assert!(output.contains("= z.unknown(); // i128"));
    let mut plain = make_handler("ping", "GET", "/ping");
    plain.output_type_name = "Json<String>";
    let output = ContractBuilder::new(vec![plain], vec![]).with_errors(vec![]).generate();
    assert!(!output.contains("z.unknown(); //"));
}
