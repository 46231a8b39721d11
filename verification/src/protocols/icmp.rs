//! ICMP message header.

use vstd::prelude::*;
use vstd::string::*;

use crate::format::{
    format_views, lemma_labels_fit, render_values, values_of, FieldFormat, FieldFormatView, FieldKind,
};
use crate::text::{decimal, decimal_string};
use crate::packet::{HeaderLen, Layer, Packet, PacketLayout};
use crate::protocols::{ICMP_TAG, IPV4_TAG};
use crate::utils::ParseError;
use crate::wire::{be16, be32, read_be_u16, read_be_u32};

use crate::format::shows_line;
use crate::registry::spec_parse_meta;

verus! {

/// ICMP message header.
#[derive(Debug, Clone, Copy, PartialEq, Eq)]
pub struct ICMPFrame {
    pub typ: u8,
    pub code: u8,
    pub checksum: u16,
    pub extended_header: u32,
}

impl Packet for ICMPFrame {
    open spec fn spec_type_tag() -> u32 {
        ICMP_TAG
    }

    open spec fn spec_parent_tag() -> Option<u32> {
        Some(IPV4_TAG)
    }

    open spec fn spec_selector() -> u32 {
        1
    }

    open spec fn spec_protocol_name() -> Seq<char> {
        "ICMPFrame"@
    }

    open spec fn spec_layout() -> PacketLayout {
        PacketLayout {
            size: 8,
            next: None,
            header_len: HeaderLen::Fixed,
            packet_len: None,
        }
    }

    open spec fn decodes(&self, frame: Seq<u8>) -> bool {
        &&& self.typ == frame[0]
        &&& self.code == frame[1]
        &&& self.checksum == be16(frame, 2)
        &&& self.extended_header == be32(frame, 4)
    }

    open spec fn spec_next_selector(&self) -> Option<u32> {
        None
    }

    open spec fn spec_header_len(&self) -> int {
        8
    }

    open spec fn spec_packet_len(&self) -> Option<int> {
        None
    }

    open spec fn spec_layer() -> Layer {
        Layer::Network
    }

    fn layer() -> (r: Layer) {
        Layer::Network
    }

    fn type_tag() -> (r: u32) {
        ICMP_TAG
    }

    fn parent_tag() -> (r: Option<u32>) {
        Some(IPV4_TAG)
    }

    fn selector() -> (r: u32) {
        1
    }

    fn protocol_name() -> (r: &'static str) {
        "ICMPFrame"
    }

    fn layout() -> (r: PacketLayout) {
        PacketLayout {
            size: 8,
            next: None,
            header_len: HeaderLen::Fixed,
            packet_len: None,
        }
    }

    fn parse(frame: &[u8]) -> (r: Result<Self, ParseError>) {
        if frame.len() < 8 {
            return Err(ParseError::InvalidValue);
        }
        Ok(ICMPFrame {
            typ: frame[0],
            code: frame[1],
            checksum: read_be_u16(frame, 2),
            extended_header: read_be_u32(frame, 4),
        })
    }

    fn next_selector(&self) -> (r: Option<u32>) {
        None
    }

    fn header_len(&self) -> (r: usize) {
        8
    }

    fn packet_len(&self) -> (r: Option<usize>) {
        None
    }

    open spec fn spec_fields() -> Seq<FieldFormatView> {
        seq![
            FieldFormatView { label: "Typ"@, offset: 0, kind: FieldKind::Number { width: 1 } },
            FieldFormatView { label: "Code"@, offset: 1, kind: FieldKind::Number { width: 1 } },
            FieldFormatView { label: "Checksum"@, offset: 2, kind: FieldKind::Number { width: 2 } },
            FieldFormatView { label: "Extended Header"@, offset: 4, kind: FieldKind::Number { width: 4 } },
        ]
    }

    fn fields() -> (r: Vec<FieldFormat>) {
        proof {
            reveal_strlit("Checksum");
            reveal_strlit("Code");
            reveal_strlit("Extended Header");
            reveal_strlit("Typ");
        }
        let r = vec![
            FieldFormat { label: "Typ", offset: 0, kind: FieldKind::Number { width: 1 } },
            FieldFormat { label: "Code", offset: 1, kind: FieldKind::Number { width: 1 } },
            FieldFormat { label: "Checksum", offset: 2, kind: FieldKind::Number { width: 2 } },
            FieldFormat { label: "Extended Header", offset: 4, kind: FieldKind::Number { width: 4 } },
        ];
        proof {
            assert(format_views(r@) =~= Self::spec_fields());
        }
        r
    }

    open spec fn spec_values(&self) -> Seq<Seq<char>> {
        seq![
            decimal(self.typ as nat),
            decimal(self.code as nat),
            decimal(self.checksum as nat),
            decimal(self.extended_header as nat),
        ]
    }

    fn to_string(&self) -> (r: String) {
        let values = vec![
            decimal_string(self.typ as u64),
            decimal_string(self.code as u64),
            decimal_string(self.checksum as u64),
            decimal_string(self.extended_header as u64),
        ];
        let fields = Self::fields();
        proof {
            assert(values@.map_values(|v: String| v@) =~= self.spec_values());
            lemma_labels_fit(fields@, Self::spec_layout().size as nat);
            assert(format_views(fields@).len() == fields@.len());
        }
        render_values(Self::protocol_name(), &fields, &values)
    }

    proof fn lemma_values_agree(&self, frame: Seq<u8>) {
        assert(values_of(Self::spec_fields(), frame) =~= self.spec_values());
    }

    proof fn lemma_decodes_unique(&self, other: &Self, frame: Seq<u8>) {
    }

    proof fn lemma_layout_agrees(&self, frame: Seq<u8>) {
    }
}

/// Law of the ICMP header: each field of a header read from `frame` holds
/// the bytes at its own offset, and the header's text shows each of those
/// values on the line that carries the field's label.
pub proof fn law_control_message_fields(p: ICMPFrame, frame: Seq<u8>)
    requires
        p.decodes(frame),
        frame.len() >= 8,
    ensures
        p.typ == frame[0],
        p.code == frame[1],
        p.checksum == be16(frame, 2),
        p.extended_header == be32(frame, 4),
        p.spec_values() == values_of(ICMPFrame::spec_fields(), frame),
        shows_line(ICMPFrame::spec_fields(), p.spec_values(), "Typ"@, decimal(frame[0] as nat)),
        shows_line(ICMPFrame::spec_fields(), p.spec_values(), "Code"@, decimal(frame[1] as nat)),
        shows_line(ICMPFrame::spec_fields(), p.spec_values(), "Checksum"@, decimal(be16(frame, 2) as nat)),
        shows_line(ICMPFrame::spec_fields(), p.spec_values(), "Extended Header"@, decimal(be32(frame, 4) as nat)),
{
    p.lemma_values_agree(frame);
    assert(ICMPFrame::spec_fields()[0].label == "Typ"@ && p.spec_values()[0] == decimal(frame[0] as nat));
    assert(ICMPFrame::spec_fields()[1].label == "Code"@ && p.spec_values()[1] == decimal(frame[1] as nat));
    assert(ICMPFrame::spec_fields()[2].label == "Checksum"@ && p.spec_values()[2] == decimal(be16(frame, 2) as nat));
    assert(ICMPFrame::spec_fields()[3].label == "Extended Header"@ && p.spec_values()[3] == decimal(be32(frame, 4) as nat));
}

/// Law of the ICMP header layout: a frame shorter than 8 bytes is refused
/// as `InvalidValue`; from any other frame the header is 8 bytes long,
/// the packet is all of the frame's bytes (the header states no length)
/// and no payload protocol is selected.
pub proof fn law_control_message_layout(d: Seq<u8>)
    ensures
        d.len() < 8 ==> spec_parse_meta(ICMPFrame::spec_layout(), d) == Result::<(int, int, Option<u32>), ParseError>::Err(ParseError::InvalidValue),
        d.len() >= 8 ==> spec_parse_meta(ICMPFrame::spec_layout(), d) == Result::<(int, int, Option<u32>), ParseError>::Ok((8, d.len() as int, None)),
{
}

} // verus!
