//! A minimal HTTP request router.
//!
//! A [`HyperRouter`](router::HyperRouter) holds an ordered list of routes,
//! each pairing an HTTP method and a compiled path pattern with a handler.
//! Routes are registered during a single-threaded setup phase through the
//! builder-style methods, after which the router is a read-only value that
//! resolves one request at a time: the first registered route whose method
//! equals the request's method and whose pattern matches the request's path
//! wins. Resolution distinguishes "no route for this method at all"
//! ([`RouterError::NotImplemented`](router::RouterError)) from "routes for
//! this method exist but none match this path"
//! ([`RouterError::NotFound`](router::RouterError)).

pub mod pattern;
pub mod router;

pub use pattern::Path;
pub use pattern::pattern_is_valid;
pub use router::HyperRouter;
pub use router::Method;
pub use router::RouterError;
