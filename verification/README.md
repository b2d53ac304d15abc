# rorpc

Rust oRPC: annotate Axum handlers and get a TypeScript contract with Zod
schemas, plus routing built from link-time registrations.

This crate is the verified core. Every function under `src/` carries a
Verus contract over a mathematical model (`Seq<char>` for text, maps for
registries, a structural model of Rust types), and all but five are proved
against it. The five are trusted wrappers around one outside call each,
whose contracts are believed, not proved:

- `text::push_char` — `String::push`
- `naming::char_is_uppercase` — `char::is_uppercase`
- `attr_args::to_uppercase` — `str::to_uppercase`
- `macro_names::parses_as_type_exec` — `syn::parse_str::<syn::Type>`
- `signature::call_site` — `proc_macro2::Span::call_site`

`diagnostics::ExSpan` declares the outside type `proc_macro2::Span`.

## Layout

- `src/` — the verified library
  - `route`, `error`, `openapi`, `builder` — route metadata, errors, OpenAPI
    metadata merging and the type-state procedure builder
  - `procedures`, `router_builder` — the procedure registry and router trees
    flattened into it
  - `type_expr`, `signature`, `diagnostics` — the model of types, handler
    signature analysis and its diagnostics
  - `attr_args`, `expand`, `macro_names` — what the handler attributes read
    from their arguments and register for a handler
  - `zod_args`, `serde_args`, `openapi_fields` — what the `#[zod(..)]`,
    `#[serde(..)]` and `openapi!` arguments mean
  - `zod_derive`, `error_schema`, `error_derive`, `naming` — Zod schema text
    for structs, enums and error variants; serde rename rules
  - `registry`, `router` — choosing and ordering registered schemas, module
    filters for routers
  - `codegen` — the TypeScript contract text
  - `laws` — properties that relate several functions
- `app/` — what Verus does not see: `inventory` registration, Axum serving,
  async middleware and dispatch, reading `syn` syntax trees into the model
  and writing macro expansions with `quote`
- `tests/` — the tests, run against the compiled library
