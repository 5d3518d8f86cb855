//! Request-construction layer for a metered API-management backend.
//!
//! Given a structured description of an API call (call kind, application
//! identity, optional end-user identity, optional usage data, service
//! credentials), this library deterministically produces the wire endpoint
//! (HTTP method + path) and a flat, ordered, correctly named list of
//! key/value string parameters ready for query-string or body encoding.

pub mod api_call;
pub mod application;
pub mod credentials;
pub mod decimal;
pub mod encoding;
pub mod errors;
pub mod http;
pub mod params;
pub mod service;
pub mod transaction;
pub mod usage;
pub mod user;
