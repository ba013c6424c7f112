//! Verified core of a DNS-01 ACME challenge hook for the ConoHa DNS API.
//!
//! The library carries the logic of the workflow: the token cache and its
//! expiry decision, the authentication exchange, the zone-resolution
//! algorithm, and the TXT record provisioning and cleanup plans. The HTTP
//! transport, TLS setup, and file handling live outside, in the thin shell
//! that drives these functions.

pub mod client;
pub mod digits;
pub mod dns;
pub mod errors;
pub mod identity;
pub mod strutil;
pub mod token;
