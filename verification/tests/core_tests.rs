use rorpc::route::parse_http_method;
use rorpc::{
    openapi_builder, os, HttpMethod, IntoOrpcError, OpenApiMeta, OrpcError, Procedure,
    RouteMetadata,
};

#[derive(Clone)]
struct TestContext {
    #[allow(dead_code)]
    value: i32,
}

// --- route ---

#[test]
fn test_http_method_as_str() {
    assert_eq!(HttpMethod::Get.as_str(), "GET");
    assert_eq!(HttpMethod::Post.as_str(), "POST");
    assert_eq!(HttpMethod::Put.as_str(), "PUT");
    assert_eq!(HttpMethod::Patch.as_str(), "PATCH");
    assert_eq!(HttpMethod::Delete.as_str(), "DELETE");
}

#[test]
fn test_http_method_display() {
    assert_eq!(HttpMethod::Get.to_string(), "GET");
    assert_eq!(HttpMethod::Post.to_string(), "POST");
}

#[test]
fn test_route_metadata_new() {
    let meta = RouteMetadata::new(HttpMethod::Get, "/ping");
    assert_eq!(meta.method, HttpMethod::Get);
    assert_eq!(meta.path, "/ping");
}

#[test]
fn test_route_metadata_absolute_path() {
    let meta = RouteMetadata::new(HttpMethod::Post, "/planet/{id}");
    assert_eq!(meta.path, "/planet/{id}");
}

#[test]
fn route_metadata_from_owned_string() {
    let meta = RouteMetadata::new(HttpMethod::Patch, String::from("/items/{id}"));
    assert_eq!(meta.method, HttpMethod::Patch);
    assert_eq!(meta.path, "/items/{id}");
}

// --- error ---

#[test]
fn test_not_found() {
    let err = OrpcError::not_found("Resource not found");
    assert_eq!(err.code, "NOT_FOUND");
    assert_eq!(err.message, "Resource not found");
    assert_eq!(err.status, Some(404));
}

#[test]
fn test_bad_request() {
    let err = OrpcError::bad_request("Invalid input");
    assert_eq!(err.code, "BAD_REQUEST");
    assert_eq!(err.message, "Invalid input");
    assert_eq!(err.status, Some(400));
}

#[test]
fn test_internal() {
    let err = OrpcError::internal("Database connection failed");
    assert_eq!(err.code, "INTERNAL_ERROR");
    assert_eq!(err.message, "Database connection failed");
    assert_eq!(err.status, Some(500));
}

#[test]
fn test_custom() {
    let err = OrpcError::custom("RATE_LIMITED", "Too many requests");
    assert_eq!(err.code, "RATE_LIMITED");
    assert_eq!(err.message, "Too many requests");
    assert_eq!(err.status, None);
}

#[test]
fn test_display() {
    let err = OrpcError::not_found("User not found");
    assert_eq!(err.to_string(), "NOT_FOUND: User not found");
}

#[test]
fn test_into_orpc_error_trait() {
    let err = OrpcError::not_found("Test");
    let converted = err.into_orpc_error();
    assert_eq!(converted.code, "NOT_FOUND");
}

#[test]
fn unauthorized_has_401() {
    let err = OrpcError::unauthorized("Login required");
    assert_eq!(err.code, "UNAUTHORIZED");
    assert_eq!(err.message, "Login required");
    assert_eq!(err.status, Some(401));
}

#[test]
fn http_status_defaults_to_500() {
    assert_eq!(OrpcError::custom("X", "y").http_status(), 500);
    assert_eq!(OrpcError::not_found("z").http_status(), 404);
    let odd = OrpcError { code: "ODD".to_string(), message: String::new(), status: Some(42) };
    assert_eq!(odd.http_status(), 500);
}

// --- openapi metadata ---

#[test]
fn test_openapi_meta_default() {
    let meta = OpenApiMeta::default();
    assert_eq!(meta.method, None);
    assert_eq!(meta.path, None);
    assert!(meta.prefixes.is_empty());
}

#[test]
fn test_merge_prefixes_accumulate() {
    let mut base = OpenApiMeta { method: None, path: None, prefixes: vec!["/api".to_string()] };
    let other = OpenApiMeta {
        method: None,
        path: None,
        prefixes: vec!["/v2".to_string(), "/users".to_string()],
    };
    base.merge(other);
    assert_eq!(
        base.prefixes,
        vec!["/api".to_string(), "/v2".to_string(), "/users".to_string()]
    );
}

#[test]
fn test_merge_method_override() {
    let mut base = OpenApiMeta { method: Some(HttpMethod::Get), path: None, prefixes: vec![] };
    let other = OpenApiMeta { method: Some(HttpMethod::Post), path: None, prefixes: vec![] };
    base.merge(other);
    assert_eq!(base.method, Some(HttpMethod::Post));
}

#[test]
fn test_merge_path_override() {
    let mut base = OpenApiMeta { method: None, path: Some("/old".to_string()), prefixes: vec![] };
    let other = OpenApiMeta { method: None, path: Some("/new".to_string()), prefixes: vec![] };
    base.merge(other);
    assert_eq!(base.path, Some("/new".to_string()));
}

#[test]
fn test_merge_preserves_existing_when_other_is_none() {
    let mut base = OpenApiMeta {
        method: Some(HttpMethod::Get),
        path: Some("/path".to_string()),
        prefixes: vec!["/api".to_string()],
    };
    let other = OpenApiMeta { method: None, path: None, prefixes: vec![] };
    base.merge(other);
    assert_eq!(base.method, Some(HttpMethod::Get));
    assert_eq!(base.path, Some("/path".to_string()));
    assert_eq!(base.prefixes, vec!["/api".to_string()]);
}

#[test]
fn test_has_complete_route_false_when_missing_method() {
    let meta = OpenApiMeta { method: None, path: Some("/path".to_string()), prefixes: vec![] };
    assert!(!meta.has_complete_route());
}

#[test]
fn test_has_complete_route_false_when_missing_path() {
    let meta = OpenApiMeta { method: Some(HttpMethod::Get), path: None, prefixes: vec![] };
    assert!(!meta.has_complete_route());
}

#[test]
fn test_has_complete_route_true_when_both_present() {
    let meta = OpenApiMeta {
        method: Some(HttpMethod::Post),
        path: Some("/users".to_string()),
        prefixes: vec![],
    };
    assert!(meta.has_complete_route());
}

#[test]
fn test_full_path_without_prefixes() {
    let meta = OpenApiMeta { method: None, path: Some("/planets".to_string()), prefixes: vec![] };
    assert_eq!(meta.full_path(), Some("/planets".to_string()));
}

#[test]
fn test_full_path_with_single_prefix() {
    let meta = OpenApiMeta {
        method: None,
        path: Some("/planets".to_string()),
        prefixes: vec!["/api".to_string()],
    };
    assert_eq!(meta.full_path(), Some("/api/planets".to_string()));
}

#[test]
fn test_full_path_with_multiple_prefixes() {
    let meta = OpenApiMeta {
        method: None,
        path: Some("/planets".to_string()),
        prefixes: vec!["/api".to_string(), "/v2".to_string()],
    };
    assert_eq!(meta.full_path(), Some("/api/v2/planets".to_string()));
}

#[test]
fn test_full_path_none_when_no_path() {
    let meta = OpenApiMeta { method: None, path: None, prefixes: vec!["/api".to_string()] };
    assert_eq!(meta.full_path(), None);
}

#[test]
fn merge_twice_equals_merging_the_merge() {
    // (a ⊕ b) ⊕ c gives the same metadata as a ⊕ (b ⊕ c)
    let a = || OpenApiMeta { method: Some(HttpMethod::Get), path: None, prefixes: vec!["/a".to_string()] };
    let b = || OpenApiMeta { method: None, path: Some("/b".to_string()), prefixes: vec!["/b".to_string()] };
    let c = || OpenApiMeta { method: Some(HttpMethod::Put), path: None, prefixes: vec!["/c".to_string()] };
    let mut left = a();
    left.merge(b());
    left.merge(c());
    let mut bc = b();
    bc.merge(c());
    let mut right = a();
    right.merge(bc);
    assert_eq!(left.method, right.method);
    assert_eq!(left.path, right.path);
    assert_eq!(left.prefixes, right.prefixes);
    assert_eq!(left.full_path(), Some("/a/b/c/b".to_string()));
}

#[test]
fn test_builder_empty() {
    let meta = openapi_builder().build();
    assert_eq!(meta.method, None);
    assert_eq!(meta.path, None);
    assert!(meta.prefixes.is_empty());
}

#[test]
fn test_builder_method_only() {
    let meta = openapi_builder().method(HttpMethod::Get).build();
    assert_eq!(meta.method, Some(HttpMethod::Get));
    assert_eq!(meta.path, None);
}

#[test]
fn test_builder_path_only() {
    let meta = openapi_builder().path("/planets").build();
    assert_eq!(meta.path, Some("/planets".to_string()));
    assert_eq!(meta.method, None);
}

#[test]
fn test_builder_prefix_only() {
    let meta = openapi_builder().prefix("/api").build();
    assert_eq!(meta.prefixes, vec!["/api".to_string()]);
    assert_eq!(meta.method, None);
    assert_eq!(meta.path, None);
}

#[test]
fn test_builder_complete_route() {
    let meta = openapi_builder().method(HttpMethod::Post).path("/users").build();
    assert!(meta.has_complete_route());
}

#[test]
fn test_builder_multiple_prefixes() {
    let meta = openapi_builder().prefix("/api").prefix("/v2").prefix("/admin").build();
    assert_eq!(
        meta.prefixes,
        vec!["/api".to_string(), "/v2".to_string(), "/admin".to_string()]
    );
}

#[test]
fn test_builder_all_fields() {
    let meta = openapi_builder()
        .method(HttpMethod::Put)
        .path("/planets/{id}")
        .prefix("/api")
        .prefix("/v2")
        .build();
    assert_eq!(meta.method, Some(HttpMethod::Put));
    assert_eq!(meta.path, Some("/planets/{id}".to_string()));
    assert_eq!(meta.prefixes, vec!["/api".to_string(), "/v2".to_string()]);
    assert!(meta.has_complete_route());
}

#[test]
fn test_builder_into_string_path() {
    let path_string = String::from("/test");
    let meta = openapi_builder().path(path_string).build();
    assert_eq!(meta.path, Some("/test".to_string()));
}

#[test]
fn test_builder_into_string_prefix() {
    let prefix_string = String::from("/api");
    let meta = openapi_builder().prefix(prefix_string).build();
    assert_eq!(meta.prefixes, vec!["/api".to_string()]);
}

#[test]
fn test_builder_method_chaining_order() {
    let meta1 = openapi_builder().path("/test").method(HttpMethod::Get).prefix("/api").build();
    let meta2 = openapi_builder().prefix("/api").method(HttpMethod::Get).path("/test").build();
    assert_eq!(meta1.method, meta2.method);
    assert_eq!(meta1.path, meta2.path);
    assert_eq!(meta1.prefixes, meta2.prefixes);
}

// --- procedure builder ---

#[test]
fn test_builder_no_input() {
    let proc = os()
        .context::<TestContext>()
        .route(HttpMethod::Get, "/test")
        .output::<String>()
        .handler(|_ctx: TestContext, _: ()| async { Ok("test".to_string()) });
    let _: Procedure<TestContext, (), String, _> = proc;
}

#[test]
fn test_builder_route_metadata_stored() {
    let proc = os()
        .context::<TestContext>()
        .route(HttpMethod::Delete, "/items/{id}")
        .output::<String>()
        .handler(|_ctx: TestContext, _: ()| async { Ok("deleted".to_string()) });
    assert_eq!(proc.route.method, HttpMethod::Delete);
    assert_eq!(proc.route.path, "/items/{id}");
}

#[test]
fn test_builder_route_before_output() {
    let proc = os()
        .context::<TestContext>()
        .route(HttpMethod::Get, "/ping")
        .output::<String>()
        .handler(|_ctx: TestContext, _: ()| async { Ok("pong".to_string()) });
    assert_eq!(proc.route.method, HttpMethod::Get);
    assert_eq!(proc.route.path, "/ping");
}

#[test]
fn test_builder_route_after_output() {
    let proc = os()
        .context::<TestContext>()
        .output::<String>()
        .route(HttpMethod::Get, "/ping")
        .handler(|_ctx: TestContext, _: ()| async { Ok("pong".to_string()) });
    assert_eq!(proc.route.method, HttpMethod::Get);
    assert_eq!(proc.route.path, "/ping");
}

#[test]
fn builder_meta_sets_full_route() {
    let meta = openapi_builder().method(HttpMethod::Get).path("/planets").prefix("/api").build();
    let proc = os()
        .context::<TestContext>()
        .output::<String>()
        .meta(meta)
        .handler(|_ctx: TestContext, _: ()| async { Ok("ok".to_string()) });
    assert_eq!(proc.route.method, HttpMethod::Get);
    assert_eq!(proc.route.path, "/api/planets");
    assert_eq!(proc.openapi_meta.path, Some("/planets".to_string()));
}

#[test]
fn test_parse_http_method_get() {
    let result = parse_http_method("GET");
    assert!(result.is_ok());
    assert_eq!(result.unwrap(), HttpMethod::Get);
}

#[test]
fn test_parse_http_method_post() {
    let result = parse_http_method("POST");
    assert!(result.is_ok());
    assert_eq!(result.unwrap(), HttpMethod::Post);
}

#[test]
fn test_parse_http_method_invalid() {
    let result = parse_http_method("INVALID");
    assert!(result.is_err());
    assert_eq!(
        result.unwrap_err(),
        "Invalid HTTP method 'INVALID'. Expected one of: GET, POST, PUT, PATCH, DELETE"
    );
}

#[test]
fn method_names_read_back() {
    for m in [HttpMethod::Get, HttpMethod::Post, HttpMethod::Put, HttpMethod::Patch, HttpMethod::Delete] {
        assert_eq!(parse_http_method(m.as_str()).unwrap(), m);
    }
    assert!(parse_http_method("get").is_err());
}

#[test]
fn test_builder_with_input() {
    struct Input {
        value: i32,
    }

    let proc = os()
        .context::<TestContext>()
        .route(HttpMethod::Post, "/test")
        .input::<Input>()
        .output::<String>()
        .handler(|_ctx: TestContext, input: Input| async move { Ok(format!("value: {}", input.value)) });

    let _: Procedure<TestContext, Input, String, _> = proc;
}

#[test]
fn test_builder_order_independent() {
    struct Input {
        x: i32,
    }

    // input before output
    let _proc1 = os()
        .context::<TestContext>()
        .route(HttpMethod::Post, "/add")
        .input::<Input>()
        .output::<i32>()
        .handler(|_ctx: TestContext, input: Input| async move { Ok(input.x * 2) });

    // output before input
    let _proc2 = os()
        .context::<TestContext>()
        .route(HttpMethod::Post, "/add")
        .output::<i32>()
        .input::<Input>()
        .handler(|_ctx: TestContext, input: Input| async move { Ok(input.x * 2) });
}

// --- openapi! fields ---

use rorpc::openapi_fields::{openapi_calls, OpenApiCall, OpenApiFault, OpenApiValue};

fn lit(name: &str, value: &str) -> (String, OpenApiValue) {
    (name.to_string(), OpenApiValue::StrLit(value.to_string()))
}

#[test]
fn test_generate_method_only() {
    let fields = vec![lit("method", "GET")];
    let result = openapi_calls(&fields);
    assert!(result.is_ok());
    assert_eq!(result.unwrap(), vec![OpenApiCall::Method(HttpMethod::Get)]);
}

#[test]
fn test_generate_path_only() {
    let fields = vec![lit("path", "/planets")];
    let result = openapi_calls(&fields);
    assert!(result.is_ok());
    let calls = result.unwrap();
    assert_eq!(calls, vec![OpenApiCall::Path(0)]);
    assert!(matches!(&fields[0].1, OpenApiValue::StrLit(s) if s == "/planets"));
}

#[test]
fn test_generate_all_fields() {
    let fields = vec![lit("method", "POST"), lit("path", "/users"), lit("prefix", "/api/v2")];
    let result = openapi_calls(&fields);
    assert!(result.is_ok());
    assert_eq!(
        result.unwrap(),
        vec![OpenApiCall::Method(HttpMethod::Post), OpenApiCall::Path(1), OpenApiCall::Prefix(2)]
    );
}

#[test]
fn test_generate_invalid_field_name() {
    let fields = vec![lit("invalid_field", "value")];
    let result = openapi_calls(&fields);
    assert!(result.is_err());
    let fault = result.unwrap_err();
    assert_eq!(fault, OpenApiFault::UnknownField(0));
    assert_eq!(fault.message(&fields), "Unknown field 'invalid_field'. Valid fields are: method, path, prefix");
}

#[test]
fn test_generate_invalid_method_value() {
    let fields = vec![lit("method", "INVALID")];
    let result = openapi_calls(&fields);
    assert!(result.is_err());
    let fault = result.unwrap_err();
    assert_eq!(fault, OpenApiFault::InvalidMethod(0));
    assert_eq!(
        fault.message(&fields),
        "Invalid HTTP method 'INVALID'. Expected one of: GET, POST, PUT, PATCH, DELETE"
    );
}

#[test]
fn openapi_method_must_be_a_literal() {
    let fields = vec![lit("path", "/x"), ("method".to_string(), OpenApiValue::Expr)];
    let fault = openapi_calls(&fields).unwrap_err();
    assert_eq!(fault, OpenApiFault::MethodNotLiteral(1));
    assert!(fault.message(&fields).contains("method value must be a string literal"));
}

#[test]
fn route_carries_accumulated_prefixes() {
    let b = os()
        .context::<TestContext>()
        .meta(openapi_builder().prefix("/api").build())
        .route(HttpMethod::Get, "/x")
        .output::<String>();
    let p = b.handler(|_ctx: TestContext, _: ()| async { Ok("x".to_string()) });
    assert_eq!(p.route.path, "/api/x");
    assert_eq!(p.route.method, HttpMethod::Get);
}
