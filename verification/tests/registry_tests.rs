use rorpc::registry::{
    choose_registrations, contract_from_registrations, order_schemas, ErrorRegistration,
    ErrorVariant, HandlerMetadata, SchemaRegistration,
};

fn reg(name: &'static str, zod: &str, deps: Vec<&'static str>) -> SchemaRegistration {
    SchemaRegistration { rust_type: name, zod_ts: zod.to_string(), dependent_types: deps }
}

#[test]
fn real_schema_preferred_over_fallback() {
    let regs = vec![
        reg("Planet", "export const PlanetSchema = z.unknown();", vec![]),
        reg("Moon", "export const MoonSchema = z.object({});", vec![]),
        reg("Planet", "export const PlanetSchema = z.object({ id: z.number() });", vec![]),
        reg("Planet", "export const PlanetSchema = z.object({ other: z.string() });", vec![]),
        reg("Moon", "export const MoonSchema = z.unknown();", vec![]),
    ];
    assert_eq!(choose_registrations(&regs), vec![2, 1]);
}

#[test]
fn first_fallback_kept_without_real_schema() {
    let regs = vec![
        reg("A", "a z.unknown()", vec![]),
        reg("A", "b z.unknown()", vec![]),
    ];
    assert_eq!(choose_registrations(&regs), vec![0]);
}

#[test]
fn dependencies_come_first() {
    let regs = vec![
        reg("Planet", "P", vec!["Moon", "Star", "Unregistered"]),
        reg("Moon", "M", vec!["Star"]),
        reg("Star", "S", vec![]),
    ];
    let idx = choose_registrations(&regs);
    let ordered = order_schemas(&regs, &idx);
    let names: Vec<&str> = ordered.iter().map(|e| e.rust_type).collect();
    assert_eq!(names, vec!["Star", "Moon", "Planet"]);
    assert_eq!(ordered[2].zod_ts, "P");
}

#[test]
fn cycles_still_emit_each_type_once() {
    let regs = vec![reg("A", "a", vec!["B"]), reg("B", "b", vec!["A"])];
    let idx = choose_registrations(&regs);
    let ordered = order_schemas(&regs, &idx);
    let names: Vec<&str> = ordered.iter().map(|e| e.rust_type).collect();
    assert_eq!(names, vec!["B", "A"]);
}

static VARIANTS: [ErrorVariant; 2] = [
    ErrorVariant { name: "NOT_FOUND", data_schema: None },
    ErrorVariant { name: "INVALID", data_schema: Some("z.string()") },
];

#[test]
fn builder_from_registrations() {
    let handlers = vec![HandlerMetadata {
        name: "list_planets",
        method: "POST",
        path: "/planet/list",
        input_type_name: "()",
        query_type_name: None,
        output_type_name: "Json<Vec<Planet>>",
        rust_module: "app::handlers::planet",
        error_type_name: Some("AppError"),
        stream_event_type_name: None,
        path_param_types: "",
    }];
    let schemas = vec![
        reg("Planet", "export const PlanetSchema = z.object({ moon: MoonSchema });", vec!["Moon"]),
        reg("Moon", "export const MoonSchema = z.object({});", vec![]),
    ];
    let errors = vec![ErrorRegistration { rust_type: "AppError", variants: &VARIANTS }];
    let out = contract_from_registrations(&handlers, &schemas, &errors).generate();
    let moon = out.find("export const MoonSchema").unwrap();
    let planet = out.find("export const PlanetSchema").unwrap();
    assert!(moon < planet);
    assert!(out.contains("listPlanets: oc"));
    assert!(out.contains("NOT_FOUND: {}"));
    assert!(out.contains("data: z.string()"));
    assert!(!out.contains("z.unknown()"));
}
