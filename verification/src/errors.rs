//! Error taxonomy of the provisioning workflow: every failure is surfaced to
//! the top level and terminates the run.

use vstd::prelude::*;

verus! {

/// One variant per failure class, each carrying context for diagnostics
/// (the offending domain, field, or a description of the failing call).
#[derive(Debug)]
pub enum ProvisionError {
    /// Malformed or missing configuration; fatal before any network call.
    Config(String),
    /// The identity call failed, or no token was loaded when one was required.
    Authentication(String),
    /// Network or TLS failure on an HTTP call; never retried.
    Transport(String),
    /// A response body did not match the expected shape.
    Deserialization(String),
    /// No zone is authoritative for the requested domain; carries the domain.
    NotFound(String),
}

impl ProvisionError {
    /// Human-readable description of the error, prefixed by its class.
    pub fn message(&self) -> (r: String)
        ensures
            match self {
                ProvisionError::Config(d) => r@ == "configuration error: "@ + d@,
                ProvisionError::Authentication(d) => r@ == "authentication error: "@ + d@,
                ProvisionError::Transport(d) => r@ == "transport error: "@ + d@,
                ProvisionError::Deserialization(d) => r@ == "deserialization error: "@ + d@,
                ProvisionError::NotFound(d) => r@ == "no zone found for domain: "@ + d@,
            },
    {
        match self {
            ProvisionError::Config(d) => String::from_str("configuration error: ").concat(d.as_str()),
            ProvisionError::Authentication(d) => String::from_str("authentication error: ").concat(
                d.as_str(),
            ),
            ProvisionError::Transport(d) => String::from_str("transport error: ").concat(d.as_str()),
            ProvisionError::Deserialization(d) => String::from_str("deserialization error: ").concat(
                d.as_str(),
            ),
            ProvisionError::NotFound(d) => String::from_str("no zone found for domain: ").concat(
                d.as_str(),
            ),
        }
    }
}

} // verus!
