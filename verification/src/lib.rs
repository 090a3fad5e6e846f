//! Packet parsing and reply construction for a small Ethernet / IPv6 / ICMPv6
//! network stack, with an HTTP responder.

pub mod wire;
pub mod ethernet;
pub mod ipv6;
pub mod checksum;
pub mod icmpv6;
pub mod http;
pub mod packet;
pub mod responder;
