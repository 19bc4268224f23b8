//! Request-metadata echo service: client-address resolution, content
//! negotiation and response rendering, as verified functions.

pub mod error;
pub mod headers;
pub mod ip;
pub mod json;
pub mod negotiate;
pub mod request;
pub mod routes;
