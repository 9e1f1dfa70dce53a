use vstd::prelude::*;

verus! {

/// Failures surfaced by the translation layer.
///
/// Transport-level failures (HTTP errors, decode errors) belong to the
/// unverified shell around this crate; only the conditions that the verified
/// core itself detects are represented here.
#[derive(Debug)]
pub enum Error {
    /// Malformed XML encountered during a streaming parse.
    XmlParse(String),
    /// Non-success HTTP status, classified by the caller.
    Authentication(String),
    /// A response that lacks a required element.
    InvalidResponse(String),
}

impl Error {
    /// A human-readable description of the failure.
    pub fn message(&self) -> (r: String)
        ensures
            match self {
                Error::XmlParse(m) => r@ == m@,
                Error::Authentication(m) => r@ == m@,
                Error::InvalidResponse(m) => r@ == m@,
            },
    {
        match self {
            Error::XmlParse(m) => m.clone(),
            Error::Authentication(m) => m.clone(),
            Error::InvalidResponse(m) => m.clone(),
        }
    }
}

} // verus!
