//! Client-side request/response translation layer for a legacy SOAP-over-HTTP
//! school-information web service.
//!
//! The crate has two verified components: an envelope builder, which produces
//! the exact wire-format SOAP body (with its doubly-escaped inner parameter
//! block) for one remote operation, and a record parser, a family of streaming
//! extractors that project the service's loosely-structured XML payloads into
//! typed records.

pub mod error;
pub mod escape;
pub mod extract;
pub mod models;
pub mod soap;
pub mod strutil;
pub mod xml;
