//! A discovery-protocol (SSDP) search client core: versioned construction of
//! search requests, strict parsing of raw responses into typed records, and a
//! time-bounded cache of discovered services.
//!
//! The network transport and the wire framing of messages are collaborators
//! outside this crate: they hand in raw responses as lists of header
//! name/value pairs (names in their canonical upper-case form) and take the
//! constructed request headers back out.
use vstd::prelude::*;

pub mod cache;
pub mod maxage;
pub mod message;
pub mod options;
pub mod response;
pub mod target;
pub mod text;
pub mod version;

verus! {

/// The error kinds a search operation can surface. Transport-level failures
/// belong to the transport collaborator and are not represented here.
#[derive(Clone, Debug, PartialEq, Eq)]
pub enum Error {
    /// A required field or header is absent; the payload names it.
    MissingRequiredField(String),
    /// A field or header holds a malformed or out-of-range value; the payload
    /// names it.
    InvalidFieldValue(String),
    /// The operation is not available under the selected protocol version.
    Unsupported,
}

/// Holds when `e` reports a missing field of the given name.
pub open spec fn is_missing_field(e: Error, name: Seq<char>) -> bool {
    &&& e matches Error::MissingRequiredField(f)
    &&& f@ == name
}

/// Holds when `e` reports an invalid value in the field of the given name.
pub open spec fn is_invalid_field(e: Error, name: Seq<char>) -> bool {
    &&& e matches Error::InvalidFieldValue(f)
    &&& f@ == name
}

} // verus!
