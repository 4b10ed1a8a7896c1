//! Multicast DNS (mDNS) service discovery: a typed model of decoded DNS
//! responses with RFC 6763 TXT-record semantics, a PTR query builder, and the
//! pure decision core of a discovery session (query cadence, response
//! filtering, terminal failure handling).
//!
//! Asynchronous socket plumbing lives outside this crate; everything here is
//! specified and verified.

pub mod discover;
pub mod errors;
pub mod mdns;
pub mod net;
pub mod response;
pub mod txt;
pub mod wire;

pub use discover::Discovery;
pub use discover::StreamResult;
pub use errors::Error;
pub use mdns::mDNSListener;
pub use mdns::mDNSSender;
pub use net::IpAddress;
pub use net::Ipv4Address;
pub use net::Ipv6Address;
pub use net::ServiceAddress;
pub use response::DnsClass;
pub use response::Record;
pub use response::RecordKind;
pub use response::Response;
pub use txt::TxtEntry;
pub use txt::TxtRecordKey;
pub use txt::TxtRecordValue;
