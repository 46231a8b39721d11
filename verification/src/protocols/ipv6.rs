//! IPv6 fixed header.

use vstd::prelude::*;
use vstd::string::*;

use crate::addrs::{ipv6_text, lemma_ipv6_view_eq, IPv6Addr};
use crate::format::{
    format_views, lemma_labels_fit, render_values, values_of, FieldFormat, FieldFormatView, FieldKind,
};
use crate::text::{decimal, decimal_string};
use crate::packet::{FieldRef, HeaderLen, Layer, Packet, PacketLayout};
use crate::protocols::{ETHERNET_TAG, IPV6_TAG};
use crate::utils::ParseError;
use crate::wire::{be16, be32, read_be_u16, read_be_u32};

use crate::format::shows_line;
use crate::registry::spec_parse_meta;

verus! {

/// IPv6 fixed header.
#[derive(Debug, Clone, Copy, PartialEq, Eq)]
pub struct IPv6Frame {
    pub version_tc_flow: u32,
    pub payload_length: u16,
    pub next_header: u8,
    pub hop_limit: u8,
    pub src_addr: IPv6Addr,
    pub dst_addr: IPv6Addr,
}

impl Packet for IPv6Frame {
    open spec fn spec_type_tag() -> u32 {
        IPV6_TAG
    }

    open spec fn spec_parent_tag() -> Option<u32> {
        Some(ETHERNET_TAG)
    }

    open spec fn spec_selector() -> u32 {
        0x86dd
    }

    open spec fn spec_protocol_name() -> Seq<char> {
        "IPv6Frame"@
    }

    open spec fn spec_layout() -> PacketLayout {
        PacketLayout {
            size: 40,
            next: Some(FieldRef { offset: 6, width: 1 }),
            header_len: HeaderLen::Fixed,
            packet_len: None,
        }
    }

    open spec fn decodes(&self, frame: Seq<u8>) -> bool {
        &&& self.version_tc_flow == be32(frame, 0)
        &&& self.payload_length == be16(frame, 4)
        &&& self.next_header == frame[6]
        &&& self.hop_limit == frame[7]
        &&& self.src_addr@ == frame.subrange(8, 24)
        &&& self.dst_addr@ == frame.subrange(24, 40)
    }

    open spec fn spec_next_selector(&self) -> Option<u32> {
        Some(self.next_header as u32)
    }

    open spec fn spec_header_len(&self) -> int {
        40
    }

    open spec fn spec_packet_len(&self) -> Option<int> {
        None
    }

    open spec fn spec_layer() -> Layer {
        Layer::DataLink
    }

    fn layer() -> (r: Layer) {
        Layer::DataLink
    }

    fn type_tag() -> (r: u32) {
        IPV6_TAG
    }

    fn parent_tag() -> (r: Option<u32>) {
        Some(ETHERNET_TAG)
    }

    fn selector() -> (r: u32) {
        0x86dd
    }

    fn protocol_name() -> (r: &'static str) {
        "IPv6Frame"
    }

    fn layout() -> (r: PacketLayout) {
        PacketLayout {
            size: 40,
            next: Some(FieldRef { offset: 6, width: 1 }),
            header_len: HeaderLen::Fixed,
            packet_len: None,
        }
    }

    fn parse(frame: &[u8]) -> (r: Result<Self, ParseError>) {
        if frame.len() < 40 {
            return Err(ParseError::InvalidValue);
        }
        Ok(IPv6Frame {
            version_tc_flow: read_be_u32(frame, 0),
            payload_length: read_be_u16(frame, 4),
            next_header: frame[6],
            hop_limit: frame[7],
            src_addr: IPv6Addr::read_at(frame, 8),
            dst_addr: IPv6Addr::read_at(frame, 24),
        })
    }

    fn next_selector(&self) -> (r: Option<u32>) {
        Some(self.next_header as u32)
    }

    fn header_len(&self) -> (r: usize) {
        40
    }

    fn packet_len(&self) -> (r: Option<usize>) {
        None
    }

    open spec fn spec_fields() -> Seq<FieldFormatView> {
        seq![
            FieldFormatView { label: "Version Tc Flow"@, offset: 0, kind: FieldKind::Number { width: 4 } },
            FieldFormatView { label: "Payload Length"@, offset: 4, kind: FieldKind::Number { width: 2 } },
            FieldFormatView { label: "Next Header"@, offset: 6, kind: FieldKind::Number { width: 1 } },
            FieldFormatView { label: "Hop Limit"@, offset: 7, kind: FieldKind::Number { width: 1 } },
            FieldFormatView { label: "Source Address"@, offset: 8, kind: FieldKind::IPv6 },
            FieldFormatView { label: "Destination Address"@, offset: 24, kind: FieldKind::IPv6 },
        ]
    }

    fn fields() -> (r: Vec<FieldFormat>) {
        proof {
            reveal_strlit("Destination Address");
            reveal_strlit("Hop Limit");
            reveal_strlit("Next Header");
            reveal_strlit("Payload Length");
            reveal_strlit("Source Address");
            reveal_strlit("Version Tc Flow");
        }
        let r = vec![
            FieldFormat { label: "Version Tc Flow", offset: 0, kind: FieldKind::Number { width: 4 } },
            FieldFormat { label: "Payload Length", offset: 4, kind: FieldKind::Number { width: 2 } },
            FieldFormat { label: "Next Header", offset: 6, kind: FieldKind::Number { width: 1 } },
            FieldFormat { label: "Hop Limit", offset: 7, kind: FieldKind::Number { width: 1 } },
            FieldFormat { label: "Source Address", offset: 8, kind: FieldKind::IPv6 },
            FieldFormat { label: "Destination Address", offset: 24, kind: FieldKind::IPv6 },
        ];
        proof {
            assert(format_views(r@) =~= Self::spec_fields());
        }
        r
    }

    open spec fn spec_values(&self) -> Seq<Seq<char>> {
        seq![
            decimal(self.version_tc_flow as nat),
            decimal(self.payload_length as nat),
            decimal(self.next_header as nat),
            decimal(self.hop_limit as nat),
            ipv6_text(self.src_addr@),
            ipv6_text(self.dst_addr@),
        ]
    }

    fn to_string(&self) -> (r: String) {
        let values = vec![
            decimal_string(self.version_tc_flow as u64),
            decimal_string(self.payload_length as u64),
            decimal_string(self.next_header as u64),
            decimal_string(self.hop_limit as u64),
            self.src_addr.to_string(),
            self.dst_addr.to_string(),
        ];
        let fields = Self::fields();
        proof {
            assert(values@.map_values(|v: String| v@) =~= self.spec_values());
            lemma_labels_fit(fields@, Self::spec_layout().size as nat);
            assert(format_views(fields@).len() == fields@.len());
        }
        render_values(Self::protocol_name(), &fields, &values)
    }

    proof fn lemma_values_agree(&self, frame: Seq<u8>) {
        assert(values_of(Self::spec_fields(), frame) =~= self.spec_values());
    }

    proof fn lemma_decodes_unique(&self, other: &Self, frame: Seq<u8>) {
        lemma_ipv6_view_eq(self.src_addr, other.src_addr);
        lemma_ipv6_view_eq(self.dst_addr, other.dst_addr);
    }

    proof fn lemma_layout_agrees(&self, frame: Seq<u8>) {
    }
}

/// Law of the IPv6 header: each field of a header read from `frame` holds
/// the bytes at its own offset, and the header's text shows each of those
/// values on the line that carries the field's label.
pub proof fn law_ipv6_fields(p: IPv6Frame, frame: Seq<u8>)
    requires
        p.decodes(frame),
        frame.len() >= 40,
    ensures
        p.version_tc_flow == be32(frame, 0),
        p.payload_length == be16(frame, 4),
        p.next_header == frame[6],
        p.hop_limit == frame[7],
        p.src_addr@ == frame.subrange(8, 24),
        p.dst_addr@ == frame.subrange(24, 40),
        p.spec_values() == values_of(IPv6Frame::spec_fields(), frame),
        shows_line(IPv6Frame::spec_fields(), p.spec_values(), "Version Tc Flow"@, decimal(be32(frame, 0) as nat)),
        shows_line(IPv6Frame::spec_fields(), p.spec_values(), "Payload Length"@, decimal(be16(frame, 4) as nat)),
        shows_line(IPv6Frame::spec_fields(), p.spec_values(), "Next Header"@, decimal(frame[6] as nat)),
        shows_line(IPv6Frame::spec_fields(), p.spec_values(), "Hop Limit"@, decimal(frame[7] as nat)),
        shows_line(IPv6Frame::spec_fields(), p.spec_values(), "Source Address"@, ipv6_text(frame.subrange(8, 24))),
        shows_line(IPv6Frame::spec_fields(), p.spec_values(), "Destination Address"@, ipv6_text(frame.subrange(24, 40))),
{
    p.lemma_values_agree(frame);
    assert(IPv6Frame::spec_fields()[0].label == "Version Tc Flow"@ && p.spec_values()[0] == decimal(be32(frame, 0) as nat));
    assert(IPv6Frame::spec_fields()[1].label == "Payload Length"@ && p.spec_values()[1] == decimal(be16(frame, 4) as nat));
    assert(IPv6Frame::spec_fields()[2].label == "Next Header"@ && p.spec_values()[2] == decimal(frame[6] as nat));
    assert(IPv6Frame::spec_fields()[3].label == "Hop Limit"@ && p.spec_values()[3] == decimal(frame[7] as nat));
    assert(IPv6Frame::spec_fields()[4].label == "Source Address"@ && p.spec_values()[4] == ipv6_text(frame.subrange(8, 24)));
    assert(IPv6Frame::spec_fields()[5].label == "Destination Address"@ && p.spec_values()[5] == ipv6_text(frame.subrange(24, 40)));
}

/// Law of the IPv6 header layout: a frame shorter than 40 bytes is refused
/// as `InvalidValue`; from any other frame the header is 40 bytes long,
/// the packet is all of the frame's bytes (the header states no length)
/// and the next-header byte at offset 6 selects the payload's protocol.
pub proof fn law_ipv6_layout(d: Seq<u8>)
    ensures
        d.len() < 40 ==> spec_parse_meta(IPv6Frame::spec_layout(), d) == Result::<(int, int, Option<u32>), ParseError>::Err(ParseError::InvalidValue),
        d.len() >= 40 ==> spec_parse_meta(IPv6Frame::spec_layout(), d) == Result::<(int, int, Option<u32>), ParseError>::Ok((40, d.len() as int, Some(d[6] as u32))),
{
}

} // verus!
