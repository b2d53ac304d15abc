use rorpc::error_derive::to_screaming_snake_case as error_code;
use rorpc::naming::{apply_rename_rule, escape_str, to_screaming_snake_case, ts_object_key};
use rorpc::registry::HandlerMetadata;
use rorpc::router::{
    expand_filter, expand_pattern, expand_single_pattern, includes_route, module_matches, normalise, Pattern,
};

// --- rename rules ---

#[test]
fn rename_rules() {
    assert_eq!(apply_rename_rule("camelCase", "PlanetName"), "planetName");
    assert_eq!(apply_rename_rule("snake_case", "PlanetName"), "planet_name");
    assert_eq!(apply_rename_rule("SCREAMING_SNAKE_CASE", "PlanetName"), "PLANET_NAME");
    assert_eq!(apply_rename_rule("kebab-case", "PlanetName"), "planet-name");
    assert_eq!(apply_rename_rule("lowercase", "PlanetName"), "planetname");
    assert_eq!(apply_rename_rule("UPPERCASE", "PlanetName"), "PLANETNAME");
}

#[test]
fn unknown_rule_passthrough() {
    assert_eq!(apply_rename_rule("PascalCase", "planet_name"), "planet_name");
}

#[test]
fn rename_screaming_kebab_and_empty() {
    assert_eq!(apply_rename_rule("SCREAMING-KEBAB-CASE", "PlanetName"), "PLANET-NAME");
    assert_eq!(apply_rename_rule("camelCase", ""), "");
}

#[test]
fn screaming_snake_case() {
    assert_eq!(to_screaming_snake_case("NotFound"), "NOT_FOUND");
    assert_eq!(to_screaming_snake_case("DatabaseError"), "DATABASE_ERROR");
    assert_eq!(to_screaming_snake_case("RateLimitExceeded"), "RATE_LIMIT_EXCEEDED");
    assert_eq!(to_screaming_snake_case("OK"), "OK");
    assert_eq!(to_screaming_snake_case("NotFoundError"), "NOT_FOUND_ERROR");
}

#[test]
fn test_to_screaming_snake_case() {
    assert_eq!(error_code("NotFound"), "NOT_FOUND");
    assert_eq!(error_code("DatabaseError"), "DATABASE_ERROR");
    assert_eq!(error_code("RateLimitExceeded"), "RATE_LIMIT_EXCEEDED");
    assert_eq!(error_code("OK"), "OK");
}

#[test]
fn error_codes_after_digits() {
    assert_eq!(error_code("V2Error"), "V2_ERROR");
    assert_eq!(to_screaming_snake_case("V2Error"), "V2ERROR");
}

#[test]
fn object_keys() {
    assert_eq!(ts_object_key("plain_key$1"), "plain_key$1");
    assert_eq!(ts_object_key("with-dash"), "\"with-dash\"");
    assert_eq!(ts_object_key("1abc"), "\"1abc\"");
    assert_eq!(ts_object_key(""), "\"\"");
    assert_eq!(escape_str("a\"b\\c"), "a\\\"b\\\\c");
}

// --- router patterns ---

#[test]
fn expand_simple() {
    assert_eq!(expand_pattern("handlers::planet"), vec!["handlers::planet"]);
}

#[test]
fn expand_wildcard() {
    assert_eq!(expand_pattern("handlers::*"), vec!["handlers::"]);
}

#[test]
fn expand_brace_group() {
    let mut result = expand_pattern("handlers::{planet,user}");
    result.sort();
    assert_eq!(result, vec!["handlers::planet", "handlers::user"]);
}

#[test]
fn expand_brace_with_whitespace() {
    let mut result = expand_pattern("handlers::{ planet , user }");
    result.sort();
    assert_eq!(result, vec!["handlers::planet", "handlers::user"]);
}

#[test]
fn expand_brace_with_suffix_wildcard() {
    assert_eq!(
        expand_pattern("app::{a,b}::*"),
        vec!["app::a::", "app::b::"]
    );
    assert_eq!(normalise("x::*".to_string()), "x::");
    assert_eq!(normalise("x*".to_string()), "x*");
}

fn meta(path: &'static str, method: &'static str, module: &'static str) -> HandlerMetadata {
    HandlerMetadata {
        name: "h",
        method,
        path,
        input_type_name: "()",
        query_type_name: None,
        output_type_name: "String",
        rust_module: module,
        error_type_name: None,
        stream_event_type_name: None,
        path_param_types: "",
    }
}

#[test]
fn filter_selects_modules() {
    let handlers = vec![
        meta("/planet/list", "POST", "app::handlers::planet"),
        meta("/user/me", "GET", "app::handlers::user::profile"),
        meta("/admin", "GET", "app::admin"),
    ];
    let f = Some(Pattern::Multiple(vec!["app::handlers::{planet,user}".to_string()]));
    assert!(includes_route(&f, &handlers, "/planet/list", "POST"));
    assert!(includes_route(&f, &handlers, "/user/me", "GET"));
    assert!(!includes_route(&f, &handlers, "/admin", "GET"));
    assert!(!includes_route(&f, &handlers, "/missing", "GET"));
    assert!(includes_route(&None, &handlers, "/admin", "GET"));
    assert!(includes_route(&Some(Pattern::Multiple(vec![])), &handlers, "/admin", "GET"));
    let pats = expand_filter(&Pattern::Single("app::*".to_string()));
    // The wildcard's `app::` is compared exactly or followed by another `::`.
    assert!(module_matches(&pats, "app::"));
    assert!(!module_matches(&pats, "app::x"));
    assert!(!module_matches(&pats, "apple::x"));
}

#[test]
fn single_pattern_trimmed_and_normalised() {
    assert_eq!(expand_single_pattern("  handlers::*  "), "handlers::");
    assert_eq!(expand_single_pattern("handlers::planet"), "handlers::planet");
    assert_eq!(expand_single_pattern(" * "), "*");
}

use rorpc::router::{assign_router_args, RouterArgKind, RouterArgsError};

#[test]
fn parse_no_args() {
    let (state, pattern) = assign_router_args(&[]).unwrap();
    assert!(state.is_none());
    assert!(pattern.is_none());
}

#[test]
fn parse_pattern_only() {
    let (state, pattern) = assign_router_args(&[RouterArgKind::Pattern]).unwrap();
    assert!(state.is_none());
    assert_eq!(pattern, Some(0));
}

#[test]
fn parse_duplicate_pattern_errors() {
    let result = assign_router_args(&[RouterArgKind::Pattern, RouterArgKind::Pattern]);
    assert!(result.is_err());
    assert!(result.unwrap_err().message().contains("pattern specified twice"));
}

#[test]
fn router_arguments_in_any_order() {
    assert_eq!(
        assign_router_args(&[RouterArgKind::Pattern, RouterArgKind::State]).unwrap(),
        (Some(1), Some(0))
    );
    assert_eq!(
        assign_router_args(&[RouterArgKind::State, RouterArgKind::Pattern]).unwrap(),
        (Some(0), Some(1))
    );
    let e = assign_router_args(&[RouterArgKind::State, RouterArgKind::State]).unwrap_err();
    assert_eq!(e, RouterArgsError::StateTwice);
    assert_eq!(e.message(), "router!(): state specified twice");
}
