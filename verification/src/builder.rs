//! Type-state procedure builder.
//!
//! `os()` starts an `Unrouted` builder; `.route(..)` (or `.meta(..)`)
//! moves it to `Routed`, where `.handler(..)` is available.

use crate::openapi::{merged, full_path_of, MetaView, OpenApiMeta};
use crate::route::{HttpMethod, RouteMetadata};
use crate::text::{join, IntoText};
use std::marker::PhantomData;
use vstd::prelude::*;

verus! {

/// Marker: no route declared yet.
pub struct Unrouted;

/// Marker: a route has been declared.
pub struct Routed;

/// Marker output type for streaming procedures (`.output::<AsyncIterator<T>>()`).
pub struct AsyncIterator<T>(PhantomData<T>);

/// Model of a route: its method and absolute path.
pub struct RouteView {
    pub method: HttpMethod,
    pub path: Seq<char>,
}

/// The model of a route value.
pub open spec fn route_view(r: RouteMetadata) -> RouteView {
    RouteView { method: r.method, path: r.path@ }
}

/// Type-safe builder for constructing procedures.
pub struct ProcedureBuilder<Ctx, In, Out, R> {
    route: Option<RouteMetadata>,
    openapi_meta: OpenApiMeta,
    _phantom: PhantomData<(Ctx, In, Out, R)>,
}

impl<Ctx, In, Out, R> ProcedureBuilder<Ctx, In, Out, R> {
    /// The route declared so far.
    pub closed spec fn route_spec(&self) -> Option<RouteView> {
        match self.route {
            Some(r) => Some(route_view(r)),
            None => None,
        }
    }

    /// The metadata accumulated so far.
    pub closed spec fn meta_spec(&self) -> MetaView {
        self.openapi_meta.view()
    }

    /// Sets the context type.
    pub fn context<C>(self) -> (b: ProcedureBuilder<C, In, Out, R>)
        ensures
            b.route_spec() == self.route_spec(),
            b.meta_spec() == self.meta_spec(),
    {
        ProcedureBuilder { route: self.route, openapi_meta: self.openapi_meta, _phantom: PhantomData }
    }

    /// Sets the input type.
    pub fn input<I>(self) -> (b: ProcedureBuilder<Ctx, I, Out, R>)
        ensures
            b.route_spec() == self.route_spec(),
            b.meta_spec() == self.meta_spec(),
    {
        ProcedureBuilder { route: self.route, openapi_meta: self.openapi_meta, _phantom: PhantomData }
    }

    /// Sets the output type.
    pub fn output<O>(self) -> (b: ProcedureBuilder<Ctx, In, O, R>)
        ensures
            b.route_spec() == self.route_spec(),
            b.meta_spec() == self.meta_spec(),
    {
        ProcedureBuilder { route: self.route, openapi_meta: self.openapi_meta, _phantom: PhantomData }
    }

    /// Declares the HTTP method and path of this procedure, as `.meta()`
    /// with that method and path: the route's path carries the prefixes
    /// accumulated so far.
    pub fn route<P: IntoText>(self, method: HttpMethod, path: P) -> (b: ProcedureBuilder<
        Ctx,
        In,
        Out,
        Routed,
    >)
        ensures
            b.meta_spec() == merged(
                self.meta_spec(),
                MetaView {
                    method: Some(method),
                    path: Some(path.text_view()),
                    prefixes: Seq::empty(),
                },
            ),
            b.route_spec() == Some(
                RouteView { method, path: join(self.meta_spec().prefixes, Seq::empty()) + path.text_view() },
            ),
    {
        let path_string = path.into_text();
        let meta = OpenApiMeta {
            method: Some(method),
            path: Some(path_string),
            prefixes: Vec::new(),
        };
        assert(meta.view().prefixes =~= Seq::<Seq<char>>::empty());
        let mut openapi_meta = self.openapi_meta;
        openapi_meta.merge(meta);
        let full = match openapi_meta.full_path() {
            Some(f) => f,
            None => String::new(),
        };
        proof {
            let m = merged(self.meta_spec(), meta.view());
            assert(m.prefixes =~= self.meta_spec().prefixes + Seq::<Seq<char>>::empty());
        }
        ProcedureBuilder {
            route: Some(RouteMetadata::new(method, full)),
            openapi_meta,
            _phantom: PhantomData,
        }
    }

    /// Adds metadata. When the accumulated metadata then has both a method
    /// and a path, the route becomes that method and the full path.
    pub fn meta(self, meta: OpenApiMeta) -> (b: ProcedureBuilder<Ctx, In, Out, Routed>)
        ensures
            b.meta_spec() == merged(self.meta_spec(), meta.view()),
            b.route_spec() == ({
                let m = merged(self.meta_spec(), meta.view());
                if m.method is Some && m.path is Some {
                    Some(RouteView { method: m.method->0, path: full_path_of(m)->0 })
                } else {
                    self.route_spec()
                }
            }),
    {
        let mut openapi_meta = self.openapi_meta;
        openapi_meta.merge(meta);
        if openapi_meta.has_complete_route() {
            let method = openapi_meta.method.unwrap();
            let path = openapi_meta.full_path().unwrap();
            ProcedureBuilder {
                route: Some(RouteMetadata::new(method, path)),
                openapi_meta,
                _phantom: PhantomData,
            }
        } else {
            ProcedureBuilder {
                route: self.route,
                openapi_meta,
                _phantom: PhantomData,
            }
        }
    }
}

impl ProcedureBuilder<(), (), (), Unrouted> {
    /// A builder with no route and empty metadata.
    pub fn new() -> (b: Self)
        ensures
            b.route_spec() is None,
            b.meta_spec() == crate::openapi::empty_meta(),
    {
        ProcedureBuilder { route: None, openapi_meta: OpenApiMeta::new(), _phantom: PhantomData }
    }
}

impl<Ctx, In, Out> ProcedureBuilder<Ctx, In, Out, Routed> where Out: serde::Serialize {
    /// Attaches the handler and produces the procedure.
    pub fn handler<F, Fut>(self, handler: F) -> (p: Procedure<Ctx, In, Out, F>) where
        F: Fn(Ctx, In) -> Fut,
        Fut: std::future::Future<Output = Result<Out, crate::error::OrpcError>>,

        requires
            self.route_spec() is Some,
        ensures
            Some(p.route_spec()) == self.route_spec(),
            p.meta_spec() == self.meta_spec(),
            p.handler_spec() == handler,
    {
        let route = self.route.unwrap();
        Procedure { handler, route, openapi_meta: self.openapi_meta, _phantom: PhantomData }
    }
}

impl<Ctx, In, T> ProcedureBuilder<Ctx, In, AsyncIterator<T>, Routed> where T: serde::Serialize {
    /// Attaches a streaming handler and produces the streaming procedure.
    pub fn handler<F, Fut, S>(self, handler: F) -> (p: StreamingProcedure<Ctx, In, T, F>) where
        F: Fn(Ctx, In) -> Fut,
        Fut: std::future::Future<Output = Result<S, crate::error::OrpcError>>,

        requires
            self.route_spec() is Some,
        ensures
            Some(p.route_spec()) == self.route_spec(),
            p.handler_spec() == handler,
    {
        let route = self.route.unwrap();
        StreamingProcedure { handler, route, _phantom: PhantomData }
    }
}

/// Entry point for building procedures.
pub fn os() -> (b: ProcedureBuilder<(), (), (), Unrouted>)
    ensures
        b.route_spec() is None,
        b.meta_spec() == crate::openapi::empty_meta(),
{
    ProcedureBuilder::new()
}

/// A typed procedure: its handler, route and metadata.
pub struct Procedure<Ctx, In, Out, H> {
    /// The handler called with the context and the decoded input.
    pub handler: H,
    /// Route metadata declared via `.route()` — read by transport adapters.
    pub route: RouteMetadata,
    /// OpenAPI metadata for richer routing information.
    pub openapi_meta: OpenApiMeta,
    _phantom: PhantomData<(Ctx, In, Out)>,
}

impl<Ctx, In, Out, H> Procedure<Ctx, In, Out, H> {
    /// The procedure's route.
    pub closed spec fn route_spec(&self) -> RouteView {
        route_view(self.route)
    }

    /// The procedure's metadata.
    pub closed spec fn meta_spec(&self) -> MetaView {
        self.openapi_meta.view()
    }

    /// The procedure's handler.
    pub closed spec fn handler_spec(&self) -> H {
        self.handler
    }

    /// Creates a procedure from its parts.
    pub fn new(handler: H, route: RouteMetadata, openapi_meta: OpenApiMeta) -> (p: Self)
        ensures
            p.handler_spec() == handler,
            p.route_spec() == route_view(route),
            p.meta_spec() == openapi_meta.view(),
    {
        Procedure { handler, route, openapi_meta, _phantom: PhantomData }
    }
}

/// A streaming procedure: its handler and route.
pub struct StreamingProcedure<Ctx, In, T, H> {
    /// The handler producing the stream of items.
    pub handler: H,
    /// Route metadata declared via `.route()` — read by transport adapters.
    pub route: RouteMetadata,
    _phantom: PhantomData<(Ctx, In, T)>,
}

impl<Ctx, In, T, H> StreamingProcedure<Ctx, In, T, H> {
    /// The procedure's route.
    pub closed spec fn route_spec(&self) -> RouteView {
        route_view(self.route)
    }

    /// The procedure's handler.
    pub closed spec fn handler_spec(&self) -> H {
        self.handler
    }
}

} // verus!
