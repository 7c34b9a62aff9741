//! Encoding and decoding of DNS messages (RFC 1035, with the OPT pseudo-record of RFC 6891
//! and the extended response codes of RFC 6895) to and from their wire layout.
//!
//! Each codec states what it reads and writes as spec functions over views of the data,
//! and the round-trip laws are proved over those spec functions.
pub mod codes;
pub mod error;
pub mod header;
pub mod message;
pub mod name;
pub mod record;
pub mod wire;

pub use codes::{DnsClass, DnsOpcode, DnsQType, DnsRcode};
pub use error::{DnsError, DnsPart};
pub use header::{DnsFlags, DnsHeader};
pub use message::{DnsPacketData, DnsRequest, DnsResponse};
pub use name::{DnsName, DnsRDataCname};
pub use record::{DnsQuestion, DnsResourceRecord};
