//! Decoded headers of a captured packet: multi-byte fields converted from
//! network order to the machine's order.

use vstd::prelude::*;

use crate::rat_rs::binding::packets::{
    RatArpHeader, RatEthernetHeader, RatIpHeader, RatTcpHeader, RatUdpHeader,
};
use crate::rat_rs::binding::TimeVal;
use crate::wire::{
    be16, be32, from_be16, from_be32, host16, host32, law_from_be16_reads_big_endian, law_from_be32_reads_big_endian,
    u16_from_be, u32_from_be,
};

verus! {

/// An Ethernet header.
#[derive(Debug, Clone, Copy)]
pub struct EthernetHeader {
    pub source: [u8; 6],
    pub destination: [u8; 6],
    pub ethertype: u16,
}

impl From<RatEthernetHeader> for EthernetHeader {
    fn from(h: RatEthernetHeader) -> (r: Self) {
        EthernetHeader { source: h.shost, destination: h.dhost, ethertype: u16_from_be(h.ether_type) }
    }
}

/// The decoded form of `h`.
pub open spec fn ethernet_header_of(h: RatEthernetHeader) -> EthernetHeader {
    EthernetHeader { source: h.shost, destination: h.dhost, ethertype: from_be16(h.ether_type) }
}

impl vstd::std_specs::convert::FromSpecImpl<RatEthernetHeader> for EthernetHeader {
    open spec fn obeys_from_spec() -> bool {
        true
    }

    open spec fn from_spec(h: RatEthernetHeader) -> Self {
        ethernet_header_of(h)
    }
}

/// An ARP header.
#[derive(Debug, Clone, Copy)]
pub struct ArpHeader {
    pub sender_hw: [u8; 6],
    pub sender_ip: [u8; 4],
    pub target_hw: [u8; 6],
    pub target_ip: [u8; 4],
    pub operation: u16,
}

impl From<RatArpHeader> for ArpHeader {
    fn from(h: RatArpHeader) -> (r: Self) {
        ArpHeader {
            sender_hw: h.sender_hardware_addr,
            sender_ip: h.sender_ip_addr,
            target_hw: h.target_hardware_addr,
            target_ip: h.target_ip_addr,
            operation: u16_from_be(h.operation),
        }
    }
}

/// The decoded form of `h`.
pub open spec fn arp_header_of(h: RatArpHeader) -> ArpHeader {
    ArpHeader {
        sender_hw: h.sender_hardware_addr,
        sender_ip: h.sender_ip_addr,
        target_hw: h.target_hardware_addr,
        target_ip: h.target_ip_addr,
        operation: from_be16(h.operation),
    }
}

impl vstd::std_specs::convert::FromSpecImpl<RatArpHeader> for ArpHeader {
    open spec fn obeys_from_spec() -> bool {
        true
    }

    open spec fn from_spec(h: RatArpHeader) -> Self {
        arp_header_of(h)
    }
}

/// An IPv4 header: addresses as numbers, protocol and time to live.
#[derive(Debug, Clone, Copy)]
pub struct IpHeader {
    pub src: u32,
    pub dst: u32,
    pub protocol: u8,
    pub ttl: u8,
}

impl From<RatIpHeader> for IpHeader {
    fn from(h: RatIpHeader) -> (r: Self) {
        IpHeader { src: u32_from_be(h.src_addr), dst: u32_from_be(h.dst_addr), protocol: h.protocol, ttl: h.ttl }
    }
}

/// The decoded form of `h`.
pub open spec fn ip_header_of(h: RatIpHeader) -> IpHeader {
    IpHeader { src: from_be32(h.src_addr), dst: from_be32(h.dst_addr), protocol: h.protocol, ttl: h.ttl }
}

impl vstd::std_specs::convert::FromSpecImpl<RatIpHeader> for IpHeader {
    open spec fn obeys_from_spec() -> bool {
        true
    }

    open spec fn from_spec(h: RatIpHeader) -> Self {
        ip_header_of(h)
    }
}

/// A TCP header: ports, sequence and acknowledgment numbers, flags.
#[derive(Debug, Clone, Copy)]
pub struct TcpHeader {
    pub src_port: u16,
    pub dst_port: u16,
    pub seq: u32,
    pub ack: u32,
    pub flags: u8,
}

impl From<RatTcpHeader> for TcpHeader {
    fn from(h: RatTcpHeader) -> (r: Self) {
        TcpHeader {
            src_port: u16_from_be(h.src_port),
            dst_port: u16_from_be(h.dst_port),
            seq: u32_from_be(h.seq_num),
            ack: u32_from_be(h.ack_num),
            flags: h.flags,
        }
    }
}

/// The decoded form of `h`.
pub open spec fn tcp_header_of(h: RatTcpHeader) -> TcpHeader {
    TcpHeader {
        src_port: from_be16(h.src_port),
        dst_port: from_be16(h.dst_port),
        seq: from_be32(h.seq_num),
        ack: from_be32(h.ack_num),
        flags: h.flags,
    }
}

impl vstd::std_specs::convert::FromSpecImpl<RatTcpHeader> for TcpHeader {
    open spec fn obeys_from_spec() -> bool {
        true
    }

    open spec fn from_spec(h: RatTcpHeader) -> Self {
        tcp_header_of(h)
    }
}

/// A UDP header: ports and length.
#[derive(Debug, Clone, Copy)]
pub struct UdpHeader {
    pub src_port: u16,
    pub dst_port: u16,
    pub length: u16,
}

impl From<RatUdpHeader> for UdpHeader {
    fn from(h: RatUdpHeader) -> (r: Self) {
        UdpHeader { src_port: u16_from_be(h.src_port), dst_port: u16_from_be(h.dst_port), length: u16_from_be(h.length) }
    }
}

/// The decoded form of `h`.
pub open spec fn udp_header_of(h: RatUdpHeader) -> UdpHeader {
    UdpHeader { src_port: from_be16(h.src_port), dst_port: from_be16(h.dst_port), length: from_be16(h.length) }
}

impl vstd::std_specs::convert::FromSpecImpl<RatUdpHeader> for UdpHeader {
    open spec fn obeys_from_spec() -> bool {
        true
    }

    open spec fn from_spec(h: RatUdpHeader) -> Self {
        udp_header_of(h)
    }
}

/// A transport-layer header.
#[derive(Debug, Clone, Copy)]
pub enum TransportHeader {
    Tcp(TcpHeader),
    Udp(UdpHeader),
}

/// One decoded header of a packet.
#[derive(Debug, Clone, Copy)]
pub enum PacketHeader {
    Ethernet(EthernetHeader),
    Arp(ArpHeader),
    Ip(IpHeader),
    Transport(TransportHeader),
}

/// A captured packet: when it was taken, its bytes, its headers and its payload.
pub trait Packet {
    fn timestamp(&self) -> TimeVal;

    fn raw_data(&self) -> &[u8];

    fn payload(&self) -> &[u8];

    fn headers(&self) -> &[PacketHeader];
}

/// A captured packet with its headers decoded.
#[derive(Debug, Clone)]
pub struct ParsedPacket {
    timestamp: TimeVal,
    raw_data: Vec<u8>,
    headers: Vec<PacketHeader>,
    payload: Vec<u8>,
}

/// The headers that a capture reports, in order: Ethernet, ARP, IP, then
/// TCP or, when there is no TCP header, UDP.
pub open spec fn spec_headers(
    eth: Option<RatEthernetHeader>,
    arp: Option<RatArpHeader>,
    ip: Option<RatIpHeader>,
    tcp: Option<RatTcpHeader>,
    udp: Option<RatUdpHeader>,
) -> Seq<PacketHeader> {
    let s1 = match eth {
        Some(h) => seq![PacketHeader::Ethernet(ethernet_header_of(h))],
        None => Seq::empty(),
    };
    let s2 = match arp {
        Some(h) => s1.push(PacketHeader::Arp(arp_header_of(h))),
        None => s1,
    };
    let s3 = match ip {
        Some(h) => s2.push(PacketHeader::Ip(ip_header_of(h))),
        None => s2,
    };
    match tcp {
        Some(h) => s3.push(PacketHeader::Transport(TransportHeader::Tcp(tcp_header_of(h)))),
        None => match udp {
            Some(h) => s3.push(PacketHeader::Transport(TransportHeader::Udp(udp_header_of(h)))),
            None => s3,
        },
    }
}

impl ParsedPacket {
    /// A packet made of the given capture fields, with the headers that the
    /// capture reports decoded as [`spec_headers`] lists them.
    pub fn from_parts(
        timestamp: TimeVal,
        raw_data: Vec<u8>,
        eth: Option<RatEthernetHeader>,
        arp: Option<RatArpHeader>,
        ip: Option<RatIpHeader>,
        tcp: Option<RatTcpHeader>,
        udp: Option<RatUdpHeader>,
        payload: Vec<u8>,
    ) -> (r: Self)
        ensures
            r.spec_timestamp() == timestamp,
            r.spec_raw_data() == raw_data@,
            r.spec_headers() == spec_headers(eth, arp, ip, tcp, udp),
            r.spec_payload() == payload@,
    {
        let mut headers: Vec<PacketHeader> = Vec::new();
        if let Some(h) = eth {
            headers.push(PacketHeader::Ethernet(EthernetHeader::from(h)));
        }
        if let Some(h) = arp {
            headers.push(PacketHeader::Arp(ArpHeader::from(h)));
        }
        if let Some(h) = ip {
            headers.push(PacketHeader::Ip(IpHeader::from(h)));
        }
        if let Some(h) = tcp {
            headers.push(PacketHeader::Transport(TransportHeader::Tcp(TcpHeader::from(h))));
        } else if let Some(h) = udp {
            headers.push(PacketHeader::Transport(TransportHeader::Udp(UdpHeader::from(h))));
        }
        proof {
            assert(headers@ =~= spec_headers(eth, arp, ip, tcp, udp));
        }
        ParsedPacket { timestamp, raw_data, headers, payload }
    }

    pub closed spec fn spec_timestamp(&self) -> TimeVal {
        self.timestamp
    }

    pub closed spec fn spec_raw_data(&self) -> Seq<u8> {
        self.raw_data@
    }

    pub closed spec fn spec_headers(&self) -> Seq<PacketHeader> {
        self.headers@
    }

    pub closed spec fn spec_payload(&self) -> Seq<u8> {
        self.payload@
    }
}

impl Packet for ParsedPacket {
    fn timestamp(&self) -> (r: TimeVal)
        ensures
            r == self.spec_timestamp(),
    {
        self.timestamp
    }

    fn raw_data(&self) -> (r: &[u8])
        ensures
            r@ == self.spec_raw_data(),
    {
        self.raw_data.as_slice()
    }

    fn payload(&self) -> (r: &[u8])
        ensures
            r@ == self.spec_payload(),
    {
        self.payload.as_slice()
    }

    fn headers(&self) -> (r: &[PacketHeader])
        ensures
            r@ == self.spec_headers(),
    {
        self.headers.as_slice()
    }
}

/// Law of the captured Ethernet header: decoding keeps the source and the
/// destination address each in its role, byte for byte, and reads the
/// EtherType as the big-endian number that its two bytes on the wire hold.
pub proof fn law_ethernet_header_decoding(h: RatEthernetHeader, ty: Seq<u8>)
    requires
        ty.len() == 2,
        h.ether_type == host16(ty, 0),
    ensures
        ({
            let d = <EthernetHeader as vstd::std_specs::convert::FromSpec<RatEthernetHeader>>::from_spec(h);
            &&& d.source == h.shost
            &&& d.destination == h.dhost
            &&& d.ethertype == be16(ty, 0)
        }),
{
    law_from_be16_reads_big_endian(h.ether_type, ty);
}

/// Law of the captured ARP header: decoding keeps each hardware and IP
/// address in its role (sender or target), byte for byte, and reads the
/// operation as the big-endian number that its two bytes on the wire hold.
pub proof fn law_arp_header_decoding(h: RatArpHeader, op: Seq<u8>)
    requires
        op.len() == 2,
        h.operation == host16(op, 0),
    ensures
        ({
            let d = <ArpHeader as vstd::std_specs::convert::FromSpec<RatArpHeader>>::from_spec(h);
            &&& d.sender_hw == h.sender_hardware_addr
            &&& d.sender_ip == h.sender_ip_addr
            &&& d.target_hw == h.target_hardware_addr
            &&& d.target_ip == h.target_ip_addr
            &&& d.operation == be16(op, 0)
        }),
{
    law_from_be16_reads_big_endian(h.operation, op);
}

/// Law of the captured IPv4 header: decoding reads the source and the
/// destination address each as the big-endian number of its own four bytes
/// on the wire, and keeps the protocol and the time to live.
pub proof fn law_ip_header_decoding(h: RatIpHeader, src: Seq<u8>, dst: Seq<u8>)
    requires
        src.len() == 4,
        dst.len() == 4,
        h.src_addr == host32(src, 0),
        h.dst_addr == host32(dst, 0),
    ensures
        ({
            let d = <IpHeader as vstd::std_specs::convert::FromSpec<RatIpHeader>>::from_spec(h);
            &&& d.src == be32(src, 0)
            &&& d.dst == be32(dst, 0)
            &&& d.protocol == h.protocol
            &&& d.ttl == h.ttl
        }),
{
    law_from_be32_reads_big_endian(h.src_addr, src);
    law_from_be32_reads_big_endian(h.dst_addr, dst);
}

/// Law of the captured TCP header: decoding reads each port, the sequence
/// number and the acknowledgment number as the big-endian number of its
/// own bytes on the wire, and keeps the flags.
pub proof fn law_tcp_header_decoding(h: RatTcpHeader, sp: Seq<u8>, dp: Seq<u8>, sq: Seq<u8>, ak: Seq<u8>)
    requires
        sp.len() == 2,
        dp.len() == 2,
        sq.len() == 4,
        ak.len() == 4,
        h.src_port == host16(sp, 0),
        h.dst_port == host16(dp, 0),
        h.seq_num == host32(sq, 0),
        h.ack_num == host32(ak, 0),
    ensures
        ({
            let d = <TcpHeader as vstd::std_specs::convert::FromSpec<RatTcpHeader>>::from_spec(h);
            &&& d.src_port == be16(sp, 0)
            &&& d.dst_port == be16(dp, 0)
            &&& d.seq == be32(sq, 0)
            &&& d.ack == be32(ak, 0)
            &&& d.flags == h.flags
        }),
{
    law_from_be16_reads_big_endian(h.src_port, sp);
    law_from_be16_reads_big_endian(h.dst_port, dp);
    law_from_be32_reads_big_endian(h.seq_num, sq);
    law_from_be32_reads_big_endian(h.ack_num, ak);
}

/// Law of the captured UDP header: decoding reads each port and the length
/// as the big-endian number of its own two bytes on the wire.
pub proof fn law_udp_header_decoding(h: RatUdpHeader, sp: Seq<u8>, dp: Seq<u8>, len: Seq<u8>)
    requires
        sp.len() == 2,
        dp.len() == 2,
        len.len() == 2,
        h.src_port == host16(sp, 0),
        h.dst_port == host16(dp, 0),
        h.length == host16(len, 0),
    ensures
        ({
            let d = <UdpHeader as vstd::std_specs::convert::FromSpec<RatUdpHeader>>::from_spec(h);
            &&& d.src_port == be16(sp, 0)
            &&& d.dst_port == be16(dp, 0)
            &&& d.length == be16(len, 0)
        }),
{
    law_from_be16_reads_big_endian(h.src_port, sp);
    law_from_be16_reads_big_endian(h.dst_port, dp);
    law_from_be16_reads_big_endian(h.length, len);
}

} // verus!
