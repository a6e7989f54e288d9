//! A parameter-validated lookup dispatcher for an HTTP entity-lookup service.
//!
//! The crate covers the pure core of such a service: extracting a
//! hexadecimal parameter from a request, delegating the lookup decision to
//! the caller, and mapping the three possible lookup outcomes (found,
//! absent, store failure) onto well-formed HTTP responses with JSON bodies.
//! The surrounding process (runtime event loop, store client) performs the
//! I/O and feeds plain values in and out.

pub mod entity;
pub mod extract;
pub mod handler;
pub mod hex;
pub mod json;
pub mod laws;
pub mod request;
pub mod response;
