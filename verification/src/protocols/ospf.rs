//! OSPF packet header.

use vstd::prelude::*;
use vstd::string::*;

use crate::format::{
    format_views, lemma_labels_fit, render_values, values_of, FieldFormat, FieldFormatView, FieldKind,
};
use crate::text::{decimal, decimal_string};
use crate::packet::{HeaderLen, Layer, Packet, PacketLayout};
use crate::protocols::{IPV4_TAG, OSPF_TAG};
use crate::utils::ParseError;
use crate::wire::{be16, be32, be64, read_be_u16, read_be_u32, read_be_u64};

use crate::format::shows_line;
use crate::registry::spec_parse_meta;

verus! {

/// OSPF packet header.
#[derive(Debug, Clone, Copy, PartialEq, Eq)]
pub struct OSPFFrame {
    pub version: u8,
    pub typ: u8,
    pub packet_length: u16,
    pub router_id: u32,
    pub area_id: u32,
    pub checksum: u16,
    pub autype: u16,
    pub authentication: u64,
}

impl Packet for OSPFFrame {
    open spec fn spec_type_tag() -> u32 {
        OSPF_TAG
    }

    open spec fn spec_parent_tag() -> Option<u32> {
        Some(IPV4_TAG)
    }

    open spec fn spec_selector() -> u32 {
        89
    }

    open spec fn spec_protocol_name() -> Seq<char> {
        "OSPFFrame"@
    }

    open spec fn spec_layout() -> PacketLayout {
        PacketLayout {
            size: 24,
            next: None,
            header_len: HeaderLen::Fixed,
            packet_len: None,
        }
    }

    open spec fn decodes(&self, frame: Seq<u8>) -> bool {
        &&& self.version == frame[0]
        &&& self.typ == frame[1]
        &&& self.packet_length == be16(frame, 2)
        &&& self.router_id == be32(frame, 4)
        &&& self.area_id == be32(frame, 8)
        &&& self.checksum == be16(frame, 12)
        &&& self.autype == be16(frame, 14)
        &&& self.authentication == be64(frame, 16)
    }

    open spec fn spec_next_selector(&self) -> Option<u32> {
        None
    }

    open spec fn spec_header_len(&self) -> int {
        24
    }

    open spec fn spec_packet_len(&self) -> Option<int> {
        None
    }

    open spec fn spec_layer() -> Layer {
        Layer::Network
    }

    fn layer() -> (r: Layer) {
        Layer::Network
    }

    fn type_tag() -> (r: u32) {
        OSPF_TAG
    }

    fn parent_tag() -> (r: Option<u32>) {
        Some(IPV4_TAG)
    }

    fn selector() -> (r: u32) {
        89
    }

    fn protocol_name() -> (r: &'static str) {
        "OSPFFrame"
    }

    fn layout() -> (r: PacketLayout) {
        PacketLayout {
            size: 24,
            next: None,
            header_len: HeaderLen::Fixed,
            packet_len: None,
        }
    }

    fn parse(frame: &[u8]) -> (r: Result<Self, ParseError>) {
        if frame.len() < 24 {
            return Err(ParseError::InvalidValue);
        }
        Ok(OSPFFrame {
            version: frame[0],
            typ: frame[1],
            packet_length: read_be_u16(frame, 2),
            router_id: read_be_u32(frame, 4),
            area_id: read_be_u32(frame, 8),
            checksum: read_be_u16(frame, 12),
            autype: read_be_u16(frame, 14),
            authentication: read_be_u64(frame, 16),
        })
    }

    fn next_selector(&self) -> (r: Option<u32>) {
        None
    }

    fn header_len(&self) -> (r: usize) {
        24
    }

    fn packet_len(&self) -> (r: Option<usize>) {
        None
    }

    open spec fn spec_fields() -> Seq<FieldFormatView> {
        seq![
            FieldFormatView { label: "Version"@, offset: 0, kind: FieldKind::Number { width: 1 } },
            FieldFormatView { label: "Typ"@, offset: 1, kind: FieldKind::Number { width: 1 } },
            FieldFormatView { label: "Packet Length"@, offset: 2, kind: FieldKind::Number { width: 2 } },
            FieldFormatView { label: "Router Id"@, offset: 4, kind: FieldKind::Number { width: 4 } },
            FieldFormatView { label: "Area Id"@, offset: 8, kind: FieldKind::Number { width: 4 } },
            FieldFormatView { label: "Checksum"@, offset: 12, kind: FieldKind::Number { width: 2 } },
            FieldFormatView { label: "Autype"@, offset: 14, kind: FieldKind::Number { width: 2 } },
            FieldFormatView { label: "Authentication"@, offset: 16, kind: FieldKind::Number { width: 8 } },
        ]
    }

    fn fields() -> (r: Vec<FieldFormat>) {
        proof {
            reveal_strlit("Area Id");
            reveal_strlit("Authentication");
            reveal_strlit("Autype");
            reveal_strlit("Checksum");
            reveal_strlit("Packet Length");
            reveal_strlit("Router Id");
            reveal_strlit("Typ");
            reveal_strlit("Version");
        }
        let r = vec![
            FieldFormat { label: "Version", offset: 0, kind: FieldKind::Number { width: 1 } },
            FieldFormat { label: "Typ", offset: 1, kind: FieldKind::Number { width: 1 } },
            FieldFormat { label: "Packet Length", offset: 2, kind: FieldKind::Number { width: 2 } },
            FieldFormat { label: "Router Id", offset: 4, kind: FieldKind::Number { width: 4 } },
            FieldFormat { label: "Area Id", offset: 8, kind: FieldKind::Number { width: 4 } },
            FieldFormat { label: "Checksum", offset: 12, kind: FieldKind::Number { width: 2 } },
            FieldFormat { label: "Autype", offset: 14, kind: FieldKind::Number { width: 2 } },
            FieldFormat { label: "Authentication", offset: 16, kind: FieldKind::Number { width: 8 } },
        ];
        proof {
            assert(format_views(r@) =~= Self::spec_fields());
        }
        r
    }

    open spec fn spec_values(&self) -> Seq<Seq<char>> {
        seq![
            decimal(self.version as nat),
            decimal(self.typ as nat),
            decimal(self.packet_length as nat),
            decimal(self.router_id as nat),
            decimal(self.area_id as nat),
            decimal(self.checksum as nat),
            decimal(self.autype as nat),
            decimal(self.authentication as nat),
        ]
    }

    fn to_string(&self) -> (r: String) {
        let values = vec![
            decimal_string(self.version as u64),
            decimal_string(self.typ as u64),
            decimal_string(self.packet_length as u64),
            decimal_string(self.router_id as u64),
            decimal_string(self.area_id as u64),
            decimal_string(self.checksum as u64),
            decimal_string(self.autype as u64),
            decimal_string(self.authentication as u64),
        ];
        let fields = Self::fields();
        proof {
            assert(values@.map_values(|v: String| v@) =~= self.spec_values());
            lemma_labels_fit(fields@, Self::spec_layout().size as nat);
            assert(format_views(fields@).len() == fields@.len());
        }
        render_values(Self::protocol_name(), &fields, &values)
    }

    proof fn lemma_values_agree(&self, frame: Seq<u8>) {
        assert(values_of(Self::spec_fields(), frame) =~= self.spec_values());
    }

    proof fn lemma_decodes_unique(&self, other: &Self, frame: Seq<u8>) {
    }

    proof fn lemma_layout_agrees(&self, frame: Seq<u8>) {
    }
}

/// Law of the OSPF header: each field of a header read from `frame` holds
/// the bytes at its own offset, and the header's text shows each of those
/// values on the line that carries the field's label.
pub proof fn law_ospf_fields(p: OSPFFrame, frame: Seq<u8>)
    requires
        p.decodes(frame),
        frame.len() >= 24,
    ensures
        p.version == frame[0],
        p.typ == frame[1],
        p.packet_length == be16(frame, 2),
        p.router_id == be32(frame, 4),
        p.area_id == be32(frame, 8),
        p.checksum == be16(frame, 12),
        p.autype == be16(frame, 14),
        p.authentication == be64(frame, 16),
        p.spec_values() == values_of(OSPFFrame::spec_fields(), frame),
        shows_line(OSPFFrame::spec_fields(), p.spec_values(), "Version"@, decimal(frame[0] as nat)),
        shows_line(OSPFFrame::spec_fields(), p.spec_values(), "Typ"@, decimal(frame[1] as nat)),
        shows_line(OSPFFrame::spec_fields(), p.spec_values(), "Packet Length"@, decimal(be16(frame, 2) as nat)),
        shows_line(OSPFFrame::spec_fields(), p.spec_values(), "Router Id"@, decimal(be32(frame, 4) as nat)),
        shows_line(OSPFFrame::spec_fields(), p.spec_values(), "Area Id"@, decimal(be32(frame, 8) as nat)),
        shows_line(OSPFFrame::spec_fields(), p.spec_values(), "Checksum"@, decimal(be16(frame, 12) as nat)),
        shows_line(OSPFFrame::spec_fields(), p.spec_values(), "Autype"@, decimal(be16(frame, 14) as nat)),
        shows_line(OSPFFrame::spec_fields(), p.spec_values(), "Authentication"@, decimal(be64(frame, 16) as nat)),
{
    p.lemma_values_agree(frame);
    assert(OSPFFrame::spec_fields()[0].label == "Version"@ && p.spec_values()[0] == decimal(frame[0] as nat));
    assert(OSPFFrame::spec_fields()[1].label == "Typ"@ && p.spec_values()[1] == decimal(frame[1] as nat));
    assert(OSPFFrame::spec_fields()[2].label == "Packet Length"@ && p.spec_values()[2] == decimal(be16(frame, 2) as nat));
    assert(OSPFFrame::spec_fields()[3].label == "Router Id"@ && p.spec_values()[3] == decimal(be32(frame, 4) as nat));
    assert(OSPFFrame::spec_fields()[4].label == "Area Id"@ && p.spec_values()[4] == decimal(be32(frame, 8) as nat));
    assert(OSPFFrame::spec_fields()[5].label == "Checksum"@ && p.spec_values()[5] == decimal(be16(frame, 12) as nat));
    assert(OSPFFrame::spec_fields()[6].label == "Autype"@ && p.spec_values()[6] == decimal(be16(frame, 14) as nat));
    assert(OSPFFrame::spec_fields()[7].label == "Authentication"@ && p.spec_values()[7] == decimal(be64(frame, 16) as nat));
}

/// Law of the OSPF header layout: a frame shorter than 24 bytes is refused
/// as `InvalidValue`; from any other frame the header is 24 bytes long,
/// the packet is all of the frame's bytes (the header states no length)
/// and no payload protocol is selected.
pub proof fn law_ospf_layout(d: Seq<u8>)
    ensures
        d.len() < 24 ==> spec_parse_meta(OSPFFrame::spec_layout(), d) == Result::<(int, int, Option<u32>), ParseError>::Err(ParseError::InvalidValue),
        d.len() >= 24 ==> spec_parse_meta(OSPFFrame::spec_layout(), d) == Result::<(int, int, Option<u32>), ParseError>::Ok((24, d.len() as int, None)),
{
}

} // verus!
