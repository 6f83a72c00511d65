//! Request routing and dispatch core: path templates compiled to anchored
//! patterns, an inheritable route tree, the middleware onion and the
//! error-to-response boundary.
pub mod text;
pub mod http;
pub mod routing;
pub mod utils;
