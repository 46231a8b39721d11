//! IPv4 header.

use vstd::prelude::*;
use vstd::string::*;

use crate::addrs::{ipv4_text, lemma_ipv4_view_eq, IPv4Addr};
use crate::format::{
    format_views, lemma_labels_fit, render_values, values_of, FieldFormat, FieldFormatView, FieldKind,
};
use crate::text::{decimal, decimal_string};
use crate::packet::{FieldRef, HeaderLen, Layer, Packet, PacketLayout};
use crate::protocols::{ETHERNET_TAG, IPV4_TAG};
use crate::utils::ParseError;
use crate::wire::{be16, read_be_u16};

use crate::format::shows_line;
use crate::registry::spec_parse_meta;

verus! {

/// IPv4 header, without options. Its length is given by the IHL field and
/// the header states no packet length, so its packet is all of the bytes
/// it is read from.
#[derive(Debug, Clone, Copy, PartialEq, Eq)]
pub struct IPv4Frame {
    pub version_ihl: u8,
    pub tos: u8,
    pub total_length: u16,
    pub id: u16,
    pub flags_fragment: u16,
    pub ttl: u8,
    pub protocol: u8,
    pub checksum: u16,
    pub source_address: IPv4Addr,
    pub destination_address: IPv4Addr,
}

impl Packet for IPv4Frame {
    open spec fn spec_type_tag() -> u32 {
        IPV4_TAG
    }

    open spec fn spec_parent_tag() -> Option<u32> {
        Some(ETHERNET_TAG)
    }

    open spec fn spec_selector() -> u32 {
        0x0800
    }

    open spec fn spec_protocol_name() -> Seq<char> {
        "IPv4Frame"@
    }

    open spec fn spec_layout() -> PacketLayout {
        PacketLayout {
            size: 20,
            next: Some(FieldRef { offset: 9, width: 1 }),
            header_len: HeaderLen::IhlWords { offset: 0 },
            packet_len: None,
        }
    }

    open spec fn decodes(&self, frame: Seq<u8>) -> bool {
        &&& self.version_ihl == frame[0]
        &&& self.tos == frame[1]
        &&& self.total_length == be16(frame, 2)
        &&& self.id == be16(frame, 4)
        &&& self.flags_fragment == be16(frame, 6)
        &&& self.ttl == frame[8]
        &&& self.protocol == frame[9]
        &&& self.checksum == be16(frame, 10)
        &&& self.source_address@ == frame.subrange(12, 16)
        &&& self.destination_address@ == frame.subrange(16, 20)
    }

    open spec fn spec_next_selector(&self) -> Option<u32> {
        Some(self.protocol as u32)
    }

    /// Four bytes for each 32-bit word that the IHL field counts.
    open spec fn spec_header_len(&self) -> int {
        (self.version_ihl % 16) * 4
    }

    open spec fn spec_packet_len(&self) -> Option<int> {
        None
    }

    open spec fn spec_layer() -> Layer {
        Layer::DataLink
    }

    fn layer() -> (r: Layer) {
        Layer::DataLink
    }

    fn type_tag() -> (r: u32) {
        IPV4_TAG
    }

    fn parent_tag() -> (r: Option<u32>) {
        Some(ETHERNET_TAG)
    }

    fn selector() -> (r: u32) {
        0x0800
    }

    fn protocol_name() -> (r: &'static str) {
        "IPv4Frame"
    }

    fn layout() -> (r: PacketLayout) {
        PacketLayout {
            size: 20,
            next: Some(FieldRef { offset: 9, width: 1 }),
            header_len: HeaderLen::IhlWords { offset: 0 },
            packet_len: None,
        }
    }

    fn parse(frame: &[u8]) -> (r: Result<Self, ParseError>) {
        if frame.len() < 20 {
            return Err(ParseError::InvalidValue);
        }
        Ok(IPv4Frame {
            version_ihl: frame[0],
            tos: frame[1],
            total_length: read_be_u16(frame, 2),
            id: read_be_u16(frame, 4),
            flags_fragment: read_be_u16(frame, 6),
            ttl: frame[8],
            protocol: frame[9],
            checksum: read_be_u16(frame, 10),
            source_address: IPv4Addr::read_at(frame, 12),
            destination_address: IPv4Addr::read_at(frame, 16),
        })
    }

    fn next_selector(&self) -> (r: Option<u32>) {
        Some(self.protocol as u32)
    }

    fn header_len(&self) -> (r: usize) {
        let v = self.version_ihl;
        assert(v & 0x0f == v % 16) by (bit_vector);
        ((v & 0x0f) * 4) as usize
    }

    fn packet_len(&self) -> (r: Option<usize>) {
        None
    }

    open spec fn spec_fields() -> Seq<FieldFormatView> {
        seq![
            FieldFormatView { label: "Version IHL"@, offset: 0, kind: FieldKind::Number { width: 1 } },
            FieldFormatView { label: "TOS"@, offset: 1, kind: FieldKind::Number { width: 1 } },
            FieldFormatView { label: "Total Length"@, offset: 2, kind: FieldKind::Number { width: 2 } },
            FieldFormatView { label: "ID"@, offset: 4, kind: FieldKind::Number { width: 2 } },
            FieldFormatView { label: "Flags Fragment"@, offset: 6, kind: FieldKind::Number { width: 2 } },
            FieldFormatView { label: "Time To Live"@, offset: 8, kind: FieldKind::Number { width: 1 } },
            FieldFormatView { label: "Protocol"@, offset: 9, kind: FieldKind::Number { width: 1 } },
            FieldFormatView { label: "Checksum"@, offset: 10, kind: FieldKind::Number { width: 2 } },
            FieldFormatView { label: "Source Address"@, offset: 12, kind: FieldKind::IPv4 },
            FieldFormatView { label: "Destination Address"@, offset: 16, kind: FieldKind::IPv4 },
        ]
    }

    fn fields() -> (r: Vec<FieldFormat>) {
        proof {
            reveal_strlit("Checksum");
            reveal_strlit("Destination Address");
            reveal_strlit("Flags Fragment");
            reveal_strlit("ID");
            reveal_strlit("Protocol");
            reveal_strlit("Source Address");
            reveal_strlit("TOS");
            reveal_strlit("Time To Live");
            reveal_strlit("Total Length");
            reveal_strlit("Version IHL");
        }
        let r = vec![
            FieldFormat { label: "Version IHL", offset: 0, kind: FieldKind::Number { width: 1 } },
            FieldFormat { label: "TOS", offset: 1, kind: FieldKind::Number { width: 1 } },
            FieldFormat { label: "Total Length", offset: 2, kind: FieldKind::Number { width: 2 } },
            FieldFormat { label: "ID", offset: 4, kind: FieldKind::Number { width: 2 } },
            FieldFormat { label: "Flags Fragment", offset: 6, kind: FieldKind::Number { width: 2 } },
            FieldFormat { label: "Time To Live", offset: 8, kind: FieldKind::Number { width: 1 } },
            FieldFormat { label: "Protocol", offset: 9, kind: FieldKind::Number { width: 1 } },
            FieldFormat { label: "Checksum", offset: 10, kind: FieldKind::Number { width: 2 } },
            FieldFormat { label: "Source Address", offset: 12, kind: FieldKind::IPv4 },
            FieldFormat { label: "Destination Address", offset: 16, kind: FieldKind::IPv4 },
        ];
        proof {
            assert(format_views(r@) =~= Self::spec_fields());
        }
        r
    }

    open spec fn spec_values(&self) -> Seq<Seq<char>> {
        seq![
            decimal(self.version_ihl as nat),
            decimal(self.tos as nat),
            decimal(self.total_length as nat),
            decimal(self.id as nat),
            decimal(self.flags_fragment as nat),
            decimal(self.ttl as nat),
            decimal(self.protocol as nat),
            decimal(self.checksum as nat),
            ipv4_text(self.source_address@),
            ipv4_text(self.destination_address@),
        ]
    }

    fn to_string(&self) -> (r: String) {
        let values = vec![
            decimal_string(self.version_ihl as u64),
            decimal_string(self.tos as u64),
            decimal_string(self.total_length as u64),
            decimal_string(self.id as u64),
            decimal_string(self.flags_fragment as u64),
            decimal_string(self.ttl as u64),
            decimal_string(self.protocol as u64),
            decimal_string(self.checksum as u64),
            self.source_address.to_string(),
            self.destination_address.to_string(),
        ];
        let fields = Self::fields();
        proof {
            assert(values@.map_values(|v: String| v@) =~= self.spec_values());
            lemma_labels_fit(fields@, Self::spec_layout().size as nat);
            assert(format_views(fields@).len() == fields@.len());
        }
        render_values(Self::protocol_name(), &fields, &values)
    }

    proof fn lemma_values_agree(&self, frame: Seq<u8>) {
        assert(values_of(Self::spec_fields(), frame) =~= self.spec_values());
    }

    proof fn lemma_decodes_unique(&self, other: &Self, frame: Seq<u8>) {
        lemma_ipv4_view_eq(self.source_address, other.source_address);
        lemma_ipv4_view_eq(self.destination_address, other.destination_address);
    }

    proof fn lemma_layout_agrees(&self, frame: Seq<u8>) {
    }
}

/// Law of the IPv4 header: each field of a header read from `frame` holds
/// the bytes at its own offset, and the header's text shows each of those
/// values on the line that carries the field's label.
pub proof fn law_ipv4_fields(p: IPv4Frame, frame: Seq<u8>)
    requires
        p.decodes(frame),
        frame.len() >= 20,
    ensures
        p.version_ihl == frame[0],
        p.tos == frame[1],
        p.total_length == be16(frame, 2),
        p.id == be16(frame, 4),
        p.flags_fragment == be16(frame, 6),
        p.ttl == frame[8],
        p.protocol == frame[9],
        p.checksum == be16(frame, 10),
        p.source_address@ == frame.subrange(12, 16),
        p.destination_address@ == frame.subrange(16, 20),
        p.spec_values() == values_of(IPv4Frame::spec_fields(), frame),
        shows_line(IPv4Frame::spec_fields(), p.spec_values(), "Version IHL"@, decimal(frame[0] as nat)),
        shows_line(IPv4Frame::spec_fields(), p.spec_values(), "TOS"@, decimal(frame[1] as nat)),
        shows_line(IPv4Frame::spec_fields(), p.spec_values(), "Total Length"@, decimal(be16(frame, 2) as nat)),
        shows_line(IPv4Frame::spec_fields(), p.spec_values(), "ID"@, decimal(be16(frame, 4) as nat)),
        shows_line(IPv4Frame::spec_fields(), p.spec_values(), "Flags Fragment"@, decimal(be16(frame, 6) as nat)),
        shows_line(IPv4Frame::spec_fields(), p.spec_values(), "Time To Live"@, decimal(frame[8] as nat)),
        shows_line(IPv4Frame::spec_fields(), p.spec_values(), "Protocol"@, decimal(frame[9] as nat)),
        shows_line(IPv4Frame::spec_fields(), p.spec_values(), "Checksum"@, decimal(be16(frame, 10) as nat)),
        shows_line(IPv4Frame::spec_fields(), p.spec_values(), "Source Address"@, ipv4_text(frame.subrange(12, 16))),
        shows_line(IPv4Frame::spec_fields(), p.spec_values(), "Destination Address"@, ipv4_text(frame.subrange(16, 20))),
{
    p.lemma_values_agree(frame);
    assert(IPv4Frame::spec_fields()[0].label == "Version IHL"@ && p.spec_values()[0] == decimal(frame[0] as nat));
    assert(IPv4Frame::spec_fields()[1].label == "TOS"@ && p.spec_values()[1] == decimal(frame[1] as nat));
    assert(IPv4Frame::spec_fields()[2].label == "Total Length"@ && p.spec_values()[2] == decimal(be16(frame, 2) as nat));
    assert(IPv4Frame::spec_fields()[3].label == "ID"@ && p.spec_values()[3] == decimal(be16(frame, 4) as nat));
    assert(IPv4Frame::spec_fields()[4].label == "Flags Fragment"@ && p.spec_values()[4] == decimal(be16(frame, 6) as nat));
    assert(IPv4Frame::spec_fields()[5].label == "Time To Live"@ && p.spec_values()[5] == decimal(frame[8] as nat));
    assert(IPv4Frame::spec_fields()[6].label == "Protocol"@ && p.spec_values()[6] == decimal(frame[9] as nat));
    assert(IPv4Frame::spec_fields()[7].label == "Checksum"@ && p.spec_values()[7] == decimal(be16(frame, 10) as nat));
    assert(IPv4Frame::spec_fields()[8].label == "Source Address"@ && p.spec_values()[8] == ipv4_text(frame.subrange(12, 16)));
    assert(IPv4Frame::spec_fields()[9].label == "Destination Address"@ && p.spec_values()[9] == ipv4_text(frame.subrange(16, 20)));
}

/// Law of the IPv4 header layout: a frame shorter than 20 bytes is refused
/// as `InvalidValue`; from any other frame the header is four times the low
/// four bits of the first byte long, the packet is all of the frame's bytes
/// and the protocol byte at offset 9 selects the payload's protocol; a header
/// longer than the frame is refused as `InvalidValue`.
pub proof fn law_ipv4_layout(d: Seq<u8>)
    ensures
        d.len() < 20 ==> spec_parse_meta(IPv4Frame::spec_layout(), d) == Result::<(int, int, Option<u32>), ParseError>::Err(ParseError::InvalidValue),
        d.len() >= 20 && (d[0] % 16) * 4 > d.len() ==> spec_parse_meta(IPv4Frame::spec_layout(), d) == Result::<(int, int, Option<u32>), ParseError>::Err(
            ParseError::InvalidValue,
        ),
        d.len() >= 20 && (d[0] % 16) * 4 <= d.len() ==> spec_parse_meta(IPv4Frame::spec_layout(), d) == Result::<(int, int, Option<u32>), ParseError>::Ok(
            ((d[0] % 16) * 4, d.len() as int, Some(d[9] as u32)),
        ),
{
}

} // verus!
