//! ARP request or reply for IPv4 over Ethernet.

use vstd::prelude::*;
use vstd::string::*;

use crate::addrs::{ipv4_text, lemma_ipv4_view_eq, lemma_mac_view_eq, mac_text, IPv4Addr, MacAddr};
use crate::format::{
    format_views, lemma_labels_fit, render_values, values_of, FieldFormat, FieldFormatView, FieldKind,
};
use crate::text::{decimal, decimal_string};
use crate::packet::{HeaderLen, Layer, Packet, PacketLayout};
use crate::protocols::{ARP_TAG, ETHERNET_TAG};
use crate::utils::ParseError;
use crate::wire::{be16, read_be_u16};

use crate::format::shows_line;
use crate::registry::spec_parse_meta;

verus! {

/// ARP request or reply for IPv4 over Ethernet.
#[derive(Debug, Clone, Copy, PartialEq, Eq)]
pub struct ARPFrame {
    pub hardware_type: u16,
    pub protocol_type: u16,
    pub hardware_address_length: u8,
    pub protocol_address_length: u8,
    pub operation: u16,
    pub sender_hardware_address: MacAddr,
    pub sender_ip_address: IPv4Addr,
    pub target_hardware_address: MacAddr,
    pub target_ip_address: IPv4Addr,
}

impl Packet for ARPFrame {
    open spec fn spec_type_tag() -> u32 {
        ARP_TAG
    }

    open spec fn spec_parent_tag() -> Option<u32> {
        Some(ETHERNET_TAG)
    }

    open spec fn spec_selector() -> u32 {
        0x0806
    }

    open spec fn spec_protocol_name() -> Seq<char> {
        "ARPFrame"@
    }

    open spec fn spec_layout() -> PacketLayout {
        PacketLayout {
            size: 28,
            next: None,
            header_len: HeaderLen::Fixed,
            packet_len: None,
        }
    }

    open spec fn decodes(&self, frame: Seq<u8>) -> bool {
        &&& self.hardware_type == be16(frame, 0)
        &&& self.protocol_type == be16(frame, 2)
        &&& self.hardware_address_length == frame[4]
        &&& self.protocol_address_length == frame[5]
        &&& self.operation == be16(frame, 6)
        &&& self.sender_hardware_address@ == frame.subrange(8, 14)
        &&& self.sender_ip_address@ == frame.subrange(14, 18)
        &&& self.target_hardware_address@ == frame.subrange(18, 24)
        &&& self.target_ip_address@ == frame.subrange(24, 28)
    }

    open spec fn spec_next_selector(&self) -> Option<u32> {
        None
    }

    open spec fn spec_header_len(&self) -> int {
        28
    }

    open spec fn spec_packet_len(&self) -> Option<int> {
        None
    }

    open spec fn spec_layer() -> Layer {
        Layer::DataLink
    }

    fn layer() -> (r: Layer) {
        Layer::DataLink
    }

    fn type_tag() -> (r: u32) {
        ARP_TAG
    }

    fn parent_tag() -> (r: Option<u32>) {
        Some(ETHERNET_TAG)
    }

    fn selector() -> (r: u32) {
        0x0806
    }

    fn protocol_name() -> (r: &'static str) {
        "ARPFrame"
    }

    fn layout() -> (r: PacketLayout) {
        PacketLayout {
            size: 28,
            next: None,
            header_len: HeaderLen::Fixed,
            packet_len: None,
        }
    }

    fn parse(frame: &[u8]) -> (r: Result<Self, ParseError>) {
        if frame.len() < 28 {
            return Err(ParseError::InvalidValue);
        }
        Ok(ARPFrame {
            hardware_type: read_be_u16(frame, 0),
            protocol_type: read_be_u16(frame, 2),
            hardware_address_length: frame[4],
            protocol_address_length: frame[5],
            operation: read_be_u16(frame, 6),
            sender_hardware_address: MacAddr::read_at(frame, 8),
            sender_ip_address: IPv4Addr::read_at(frame, 14),
            target_hardware_address: MacAddr::read_at(frame, 18),
            target_ip_address: IPv4Addr::read_at(frame, 24),
        })
    }

    fn next_selector(&self) -> (r: Option<u32>) {
        None
    }

    fn header_len(&self) -> (r: usize) {
        28
    }

    fn packet_len(&self) -> (r: Option<usize>) {
        None
    }

    open spec fn spec_fields() -> Seq<FieldFormatView> {
        seq![
            FieldFormatView { label: "Hardware Type"@, offset: 0, kind: FieldKind::Number { width: 2 } },
            FieldFormatView { label: "Protocol Type"@, offset: 2, kind: FieldKind::Number { width: 2 } },
            FieldFormatView { label: "Hardware Address Length"@, offset: 4, kind: FieldKind::Number { width: 1 } },
            FieldFormatView { label: "Protocol Address Length"@, offset: 5, kind: FieldKind::Number { width: 1 } },
            FieldFormatView { label: "Operation"@, offset: 6, kind: FieldKind::Number { width: 2 } },
            FieldFormatView { label: "Sender Hardware Address"@, offset: 8, kind: FieldKind::Mac },
            FieldFormatView { label: "Sender Ip Address"@, offset: 14, kind: FieldKind::IPv4 },
            FieldFormatView { label: "Target Hardware Address"@, offset: 18, kind: FieldKind::Mac },
            FieldFormatView { label: "Target Ip Address"@, offset: 24, kind: FieldKind::IPv4 },
        ]
    }

    fn fields() -> (r: Vec<FieldFormat>) {
        proof {
            reveal_strlit("Hardware Address Length");
            reveal_strlit("Hardware Type");
            reveal_strlit("Operation");
            reveal_strlit("Protocol Address Length");
            reveal_strlit("Protocol Type");
            reveal_strlit("Sender Hardware Address");
            reveal_strlit("Sender Ip Address");
            reveal_strlit("Target Hardware Address");
            reveal_strlit("Target Ip Address");
        }
        let r = vec![
            FieldFormat { label: "Hardware Type", offset: 0, kind: FieldKind::Number { width: 2 } },
            FieldFormat { label: "Protocol Type", offset: 2, kind: FieldKind::Number { width: 2 } },
            FieldFormat { label: "Hardware Address Length", offset: 4, kind: FieldKind::Number { width: 1 } },
            FieldFormat { label: "Protocol Address Length", offset: 5, kind: FieldKind::Number { width: 1 } },
            FieldFormat { label: "Operation", offset: 6, kind: FieldKind::Number { width: 2 } },
            FieldFormat { label: "Sender Hardware Address", offset: 8, kind: FieldKind::Mac },
            FieldFormat { label: "Sender Ip Address", offset: 14, kind: FieldKind::IPv4 },
            FieldFormat { label: "Target Hardware Address", offset: 18, kind: FieldKind::Mac },
            FieldFormat { label: "Target Ip Address", offset: 24, kind: FieldKind::IPv4 },
        ];
        proof {
            assert(format_views(r@) =~= Self::spec_fields());
        }
        r
    }

    open spec fn spec_values(&self) -> Seq<Seq<char>> {
        seq![
            decimal(self.hardware_type as nat),
            decimal(self.protocol_type as nat),
            decimal(self.hardware_address_length as nat),
            decimal(self.protocol_address_length as nat),
            decimal(self.operation as nat),
            mac_text(self.sender_hardware_address@),
            ipv4_text(self.sender_ip_address@),
            mac_text(self.target_hardware_address@),
            ipv4_text(self.target_ip_address@),
        ]
    }

    fn to_string(&self) -> (r: String) {
        let values = vec![
            decimal_string(self.hardware_type as u64),
            decimal_string(self.protocol_type as u64),
            decimal_string(self.hardware_address_length as u64),
            decimal_string(self.protocol_address_length as u64),
            decimal_string(self.operation as u64),
            self.sender_hardware_address.to_string(),
            self.sender_ip_address.to_string(),
            self.target_hardware_address.to_string(),
            self.target_ip_address.to_string(),
        ];
        let fields = Self::fields();
        proof {
            assert(values@.map_values(|v: String| v@) =~= self.spec_values());
            lemma_labels_fit(fields@, Self::spec_layout().size as nat);
            assert(format_views(fields@).len() == fields@.len());
        }
        render_values(Self::protocol_name(), &fields, &values)
    }

    proof fn lemma_values_agree(&self, frame: Seq<u8>) {
        assert(values_of(Self::spec_fields(), frame) =~= self.spec_values());
    }

    proof fn lemma_decodes_unique(&self, other: &Self, frame: Seq<u8>) {
        lemma_mac_view_eq(self.sender_hardware_address, other.sender_hardware_address);
        lemma_ipv4_view_eq(self.sender_ip_address, other.sender_ip_address);
        lemma_mac_view_eq(self.target_hardware_address, other.target_hardware_address);
        lemma_ipv4_view_eq(self.target_ip_address, other.target_ip_address);
    }

    proof fn lemma_layout_agrees(&self, frame: Seq<u8>) {
    }
}

/// Law of the ARP message: each field of a header read from `frame` holds
/// the bytes at its own offset, and the header's text shows each of those
/// values on the line that carries the field's label.
pub proof fn law_arp_fields(p: ARPFrame, frame: Seq<u8>)
    requires
        p.decodes(frame),
        frame.len() >= 28,
    ensures
        p.hardware_type == be16(frame, 0),
        p.protocol_type == be16(frame, 2),
        p.hardware_address_length == frame[4],
        p.protocol_address_length == frame[5],
        p.operation == be16(frame, 6),
        p.sender_hardware_address@ == frame.subrange(8, 14),
        p.sender_ip_address@ == frame.subrange(14, 18),
        p.target_hardware_address@ == frame.subrange(18, 24),
        p.target_ip_address@ == frame.subrange(24, 28),
        p.spec_values() == values_of(ARPFrame::spec_fields(), frame),
        shows_line(ARPFrame::spec_fields(), p.spec_values(), "Hardware Type"@, decimal(be16(frame, 0) as nat)),
        shows_line(ARPFrame::spec_fields(), p.spec_values(), "Protocol Type"@, decimal(be16(frame, 2) as nat)),
        shows_line(ARPFrame::spec_fields(), p.spec_values(), "Hardware Address Length"@, decimal(frame[4] as nat)),
        shows_line(ARPFrame::spec_fields(), p.spec_values(), "Protocol Address Length"@, decimal(frame[5] as nat)),
        shows_line(ARPFrame::spec_fields(), p.spec_values(), "Operation"@, decimal(be16(frame, 6) as nat)),
        shows_line(ARPFrame::spec_fields(), p.spec_values(), "Sender Hardware Address"@, mac_text(frame.subrange(8, 14))),
        shows_line(ARPFrame::spec_fields(), p.spec_values(), "Sender Ip Address"@, ipv4_text(frame.subrange(14, 18))),
        shows_line(ARPFrame::spec_fields(), p.spec_values(), "Target Hardware Address"@, mac_text(frame.subrange(18, 24))),
        shows_line(ARPFrame::spec_fields(), p.spec_values(), "Target Ip Address"@, ipv4_text(frame.subrange(24, 28))),
{
    p.lemma_values_agree(frame);
    assert(ARPFrame::spec_fields()[0].label == "Hardware Type"@ && p.spec_values()[0] == decimal(be16(frame, 0) as nat));
    assert(ARPFrame::spec_fields()[1].label == "Protocol Type"@ && p.spec_values()[1] == decimal(be16(frame, 2) as nat));
    assert(ARPFrame::spec_fields()[2].label == "Hardware Address Length"@ && p.spec_values()[2] == decimal(frame[4] as nat));
    assert(ARPFrame::spec_fields()[3].label == "Protocol Address Length"@ && p.spec_values()[3] == decimal(frame[5] as nat));
    assert(ARPFrame::spec_fields()[4].label == "Operation"@ && p.spec_values()[4] == decimal(be16(frame, 6) as nat));
    assert(ARPFrame::spec_fields()[5].label == "Sender Hardware Address"@ && p.spec_values()[5] == mac_text(frame.subrange(8, 14)));
    assert(ARPFrame::spec_fields()[6].label == "Sender Ip Address"@ && p.spec_values()[6] == ipv4_text(frame.subrange(14, 18)));
    assert(ARPFrame::spec_fields()[7].label == "Target Hardware Address"@ && p.spec_values()[7] == mac_text(frame.subrange(18, 24)));
    assert(ARPFrame::spec_fields()[8].label == "Target Ip Address"@ && p.spec_values()[8] == ipv4_text(frame.subrange(24, 28)));
}

/// Law of the ARP message layout: a frame shorter than 28 bytes is refused
/// as `InvalidValue`; from any other frame the header is 28 bytes long,
/// the packet is all of the frame's bytes (the header states no length)
/// and no payload protocol is selected.
pub proof fn law_arp_layout(d: Seq<u8>)
    ensures
        d.len() < 28 ==> spec_parse_meta(ARPFrame::spec_layout(), d) == Result::<(int, int, Option<u32>), ParseError>::Err(ParseError::InvalidValue),
        d.len() >= 28 ==> spec_parse_meta(ARPFrame::spec_layout(), d) == Result::<(int, int, Option<u32>), ParseError>::Ok((28, d.len() as int, None)),
{
}

} // verus!
