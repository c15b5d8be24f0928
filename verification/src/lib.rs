//! A verified model of a minimal server-rendered, client-hydrated web
//! application: view definitions for a single route, an HTML serializer,
//! a route table, the request-handling rules of the HTTP server, the
//! configuration loader, and the client hydration entry point.
//!
//! The observable behaviour is small: a GET to `/` is answered with a full
//! HTML page whose body holds one paragraph, "Hello, World!"; any other
//! path falls back to a static-asset lookup or a 404. The interest is in
//! the contracts: the server-rendered markup and the document the client
//! holds after hydration are proved structurally identical, rendering is
//! proved deterministic, and each response is proved to depend on nothing
//! but its own request.

pub mod config;
pub mod html;
pub mod hydrate;
pub mod router;
pub mod server;
pub mod view;
