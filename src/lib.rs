use vstd::prelude::*;

pub mod buffer;
pub mod compression;
pub mod enums;
pub mod error;
pub mod message;
pub mod packet;

pub use buffer::DnsPacketBuffer;
pub use enums::{QueryClass, QueryType, ResponseCode};
pub use error::{CodeField, DnsPacketError};
pub use message::{DnsHeader, DnsQuestion, DnsRecord, Ipv4Address};
pub use packet::DnsPacket;

verus! {

} // verus!
