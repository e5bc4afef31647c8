//! Primitives for constructing and inspecting raw network packets: typed
//! address values (IPv4, IPv6, MAC), byte-exact wire layouts for Ethernet,
//! ARP, ICMP and IP headers, and the Internet one's-complement checksum.

use vstd::prelude::*;

pub mod addr;
pub mod checksum;
pub mod headers;
pub mod prime;
pub mod rand;
pub mod text;

pub use addr::Handle;
pub use addr::Ipv4;
pub use addr::Ipv6;
pub use addr::Mac;
pub use checksum::checksum;
pub use checksum::checksum_spec;
pub use headers::ArpHeader;
pub use headers::EthHeader;
pub use headers::IcmpHeader;
pub use headers::Ipv4Header;
pub use headers::Ipv6Header;
pub use prime::Prime;
pub use rand::random_in_range;
pub use rand::random_with_seed;
pub use rand::RandomNumber;
pub use text::str_from_bytes;

verus! {

/// Number of octets in an IPv6 address.
pub const IPV6_LEN: usize = 16;

/// Number of octets in an IPv4 address.
pub const IPV4_LEN: usize = 4;

/// Number of octets in a MAC address.
pub const MAC_LEN: usize = 6;

/// Wire size of an ICMP header, in bytes.
pub const ICMP_HEADER_SIZE: usize = 8;

/// Wire size of an ARP header, in bytes.
pub const ARP_HEADER_SIZE: usize = 28;

/// Wire size of an Ethernet header, in bytes.
pub const ETH_HEADER_SIZE: usize = 14;

/// Wire size of an IPv4 header, in bytes.
pub const IP_HEADER_SIZE: usize = 20;

} // verus!
