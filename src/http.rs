//! Request and response data shapes.
pub mod method;
pub mod headers;
pub mod cookies;
pub mod error;
pub mod request;
pub mod response;
