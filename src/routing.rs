//! Path templates, the route tree and the compiled router.
pub mod pattern;
pub mod route;
pub mod router;
pub mod middleware;
