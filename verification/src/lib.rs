//! Verified core of an RPC contract toolkit: route metadata, procedure
//! builders, and TypeScript / Zod contract generation.

pub mod route;
pub mod text;

pub use route::{HttpMethod, RouteMetadata};
pub mod error;
pub use error::{IntoOrpcError, OrpcError};
pub mod openapi;
pub use openapi::{openapi_builder, OpenApiMeta, OpenApiMetaBuilder};
pub mod builder;
pub use builder::{os, AsyncIterator, Procedure, ProcedureBuilder, Routed, StreamingProcedure, Unrouted};
pub mod order;
pub mod types;
pub mod naming;
pub mod router;
pub mod registry;
pub mod error_derive;
pub mod diagnostics;
pub mod type_expr;
pub mod error_schema;
pub mod signature;
pub mod attr_args;
pub mod zod_derive;
pub mod procedures;
pub mod laws;
pub mod codegen;
pub mod expand;
pub mod macro_names;
pub mod router_builder;
pub mod zod_args;
pub mod openapi_fields;
pub mod serde_args;
