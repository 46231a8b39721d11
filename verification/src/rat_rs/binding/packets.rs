//! Protocol headers as the C capture library lays them out: multi-byte
//! fields hold the bytes of the wire, in network order.

use vstd::prelude::*;

verus! {

/// The number of bytes of a hardware address.
pub const RAT_HA_ADDR_LEN: usize = 6;

/// A hardware address.
#[derive(Debug, Clone, Copy)]
pub struct RatHardwareAddr {
    pub octet: [u8; 6],
}

/// An Ethernet header; `ether_type` is in network order.
#[derive(Debug, Clone, Copy)]
pub struct RatEthernetHeader {
    pub dhost: [u8; 6],
    pub shost: [u8; 6],
    pub ether_type: u16,
}

/// An ARP header; multi-byte fields are in network order.
#[derive(Debug, Clone, Copy)]
pub struct RatArpHeader {
    pub hardware_type: u16,
    pub protocol_type: u16,
    pub hardware_addr_len: u8,
    pub protocol_addr_len: u8,
    pub operation: u16,
    pub sender_hardware_addr: [u8; 6],
    pub sender_ip_addr: [u8; 4],
    pub target_hardware_addr: [u8; 6],
    pub target_ip_addr: [u8; 4],
}

/// An IPv4 header; multi-byte fields are in network order.
#[derive(Debug, Clone, Copy)]
pub struct RatIpHeader {
    pub version_ihl: u8,
    pub tos: u8,
    pub total_length: u16,
    pub id: u16,
    pub flags_fragment: u16,
    pub ttl: u8,
    pub protocol: u8,
    pub checksum: u16,
    pub src_addr: u32,
    pub dst_addr: u32,
}

/// A TCP header; multi-byte fields are in network order.
#[derive(Debug, Clone, Copy)]
pub struct RatTcpHeader {
    pub src_port: u16,
    pub dst_port: u16,
    pub seq_num: u32,
    pub ack_num: u32,
    pub data_offset_reserved: u8,
    pub flags: u8,
    pub window_size: u16,
    pub checksum: u16,
    pub urgent_ptr: u16,
}

/// A UDP header; multi-byte fields are in network order.
#[derive(Debug, Clone, Copy)]
pub struct RatUdpHeader {
    pub src_port: u16,
    pub dst_port: u16,
    pub length: u16,
    pub checksum: u16,
}

} // verus!
