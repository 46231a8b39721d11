//! The protocols a registry can be built from, each with its header layout.

pub mod arp;
pub mod ethernet;
pub mod icmp;
pub mod ipv4;
pub mod ipv6;
pub mod ospf;
pub mod tcp;
pub mod udp;

pub use crate::registry::{ProtocolId, ProtocolKey};

use vstd::prelude::*;

verus! {

/// Type tag of [`ethernet::EthernetFrame`].
pub const ETHERNET_TAG: u32 = 1;
/// Type tag of [`ipv4::IPv4Frame`].
pub const IPV4_TAG: u32 = 2;
/// Type tag of [`ipv6::IPv6Frame`].
pub const IPV6_TAG: u32 = 3;
/// Type tag of [`arp::ARPFrame`].
pub const ARP_TAG: u32 = 4;
/// Type tag of [`icmp::ICMPFrame`].
pub const ICMP_TAG: u32 = 5;
/// Type tag of [`ospf::OSPFFrame`].
pub const OSPF_TAG: u32 = 6;
/// Type tag of [`tcp::TCPFrame`].
pub const TCP_TAG: u32 = 7;
/// Type tag of [`udp::UDPFrame`].
pub const UDP_TAG: u32 = 8;

} // verus!
