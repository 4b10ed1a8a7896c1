//! The error taxonomy of the library.
//!
//! Socket failures are reported by the runtime layer as [`Error::Io`]; a
//! datagram that the DNS codec rejects becomes [`Error::Dns`]; a caller that
//! wraps an operation in an external timeout capability surfaces
//! [`Error::Timeout`].

use vstd::prelude::*;

verus! {

/// An error observable through the library's interfaces.
#[derive(Clone, Debug, PartialEq, Eq)]
pub enum Error {
    /// A socket bind/join/send/receive failure, with its description.
    Io(String),
    /// A malformed DNS message, with the codec's description.
    Dns(String),
    /// An operation wrapped in an external timeout capability timed out.
    Timeout,
}

} // verus!
