//! UDP datagram header.

use vstd::prelude::*;
use vstd::string::*;

use crate::format::{
    format_views, lemma_labels_fit, render_values, values_of, FieldFormat, FieldFormatView, FieldKind,
};
use crate::text::{decimal, decimal_string};
use crate::packet::{HeaderLen, Layer, Packet, PacketLayout};
use crate::protocols::{IPV4_TAG, UDP_TAG};
use crate::utils::ParseError;
use crate::wire::{be16, read_be_u16};

use crate::format::shows_line;
use crate::registry::spec_parse_meta;

verus! {

/// UDP datagram header.
#[derive(Debug, Clone, Copy, PartialEq, Eq)]
pub struct UDPFrame {
    pub src: u16,
    pub dst: u16,
    pub lenght: u16,
    pub checksum: u16,
}

impl Packet for UDPFrame {
    open spec fn spec_type_tag() -> u32 {
        UDP_TAG
    }

    open spec fn spec_parent_tag() -> Option<u32> {
        Some(IPV4_TAG)
    }

    open spec fn spec_selector() -> u32 {
        17
    }

    open spec fn spec_protocol_name() -> Seq<char> {
        "UDPFrame"@
    }

    open spec fn spec_layout() -> PacketLayout {
        PacketLayout {
            size: 8,
            next: None,
            header_len: HeaderLen::Fixed,
            packet_len: None,
        }
    }

    open spec fn decodes(&self, frame: Seq<u8>) -> bool {
        &&& self.src == be16(frame, 0)
        &&& self.dst == be16(frame, 2)
        &&& self.lenght == be16(frame, 4)
        &&& self.checksum == be16(frame, 6)
    }

    open spec fn spec_next_selector(&self) -> Option<u32> {
        None
    }

    open spec fn spec_header_len(&self) -> int {
        8
    }

    open spec fn spec_packet_len(&self) -> Option<int> {
        None
    }

    open spec fn spec_layer() -> Layer {
        Layer::Transport
    }

    fn layer() -> (r: Layer) {
        Layer::Transport
    }

    fn type_tag() -> (r: u32) {
        UDP_TAG
    }

    fn parent_tag() -> (r: Option<u32>) {
        Some(IPV4_TAG)
    }

    fn selector() -> (r: u32) {
        17
    }

    fn protocol_name() -> (r: &'static str) {
        "UDPFrame"
    }

    fn layout() -> (r: PacketLayout) {
        PacketLayout {
            size: 8,
            next: None,
            header_len: HeaderLen::Fixed,
            packet_len: None,
        }
    }

    fn parse(frame: &[u8]) -> (r: Result<Self, ParseError>) {
        if frame.len() < 8 {
            return Err(ParseError::InvalidValue);
        }
        Ok(UDPFrame {
            src: read_be_u16(frame, 0),
            dst: read_be_u16(frame, 2),
            lenght: read_be_u16(frame, 4),
            checksum: read_be_u16(frame, 6),
        })
    }

    fn next_selector(&self) -> (r: Option<u32>) {
        None
    }

    fn header_len(&self) -> (r: usize) {
        8
    }

    fn packet_len(&self) -> (r: Option<usize>) {
        None
    }

    open spec fn spec_fields() -> Seq<FieldFormatView> {
        seq![
            FieldFormatView { label: "Source Port"@, offset: 0, kind: FieldKind::Number { width: 2 } },
            FieldFormatView { label: "Destination Port"@, offset: 2, kind: FieldKind::Number { width: 2 } },
            FieldFormatView { label: "Length"@, offset: 4, kind: FieldKind::Number { width: 2 } },
            FieldFormatView { label: "Checksum"@, offset: 6, kind: FieldKind::Number { width: 2 } },
        ]
    }

    fn fields() -> (r: Vec<FieldFormat>) {
        proof {
            reveal_strlit("Checksum");
            reveal_strlit("Destination Port");
            reveal_strlit("Length");
            reveal_strlit("Source Port");
        }
        let r = vec![
            FieldFormat { label: "Source Port", offset: 0, kind: FieldKind::Number { width: 2 } },
            FieldFormat { label: "Destination Port", offset: 2, kind: FieldKind::Number { width: 2 } },
            FieldFormat { label: "Length", offset: 4, kind: FieldKind::Number { width: 2 } },
            FieldFormat { label: "Checksum", offset: 6, kind: FieldKind::Number { width: 2 } },
        ];
        proof {
            assert(format_views(r@) =~= Self::spec_fields());
        }
        r
    }

    open spec fn spec_values(&self) -> Seq<Seq<char>> {
        seq![
            decimal(self.src as nat),
            decimal(self.dst as nat),
            decimal(self.lenght as nat),
            decimal(self.checksum as nat),
        ]
    }

    fn to_string(&self) -> (r: String) {
        let values = vec![
            decimal_string(self.src as u64),
            decimal_string(self.dst as u64),
            decimal_string(self.lenght as u64),
            decimal_string(self.checksum as u64),
        ];
        let fields = Self::fields();
        proof {
            assert(values@.map_values(|v: String| v@) =~= self.spec_values());
            lemma_labels_fit(fields@, Self::spec_layout().size as nat);
            assert(format_views(fields@).len() == fields@.len());
        }
        render_values(Self::protocol_name(), &fields, &values)
    }

    proof fn lemma_values_agree(&self, frame: Seq<u8>) {
        assert(values_of(Self::spec_fields(), frame) =~= self.spec_values());
    }

    proof fn lemma_decodes_unique(&self, other: &Self, frame: Seq<u8>) {
    }

    proof fn lemma_layout_agrees(&self, frame: Seq<u8>) {
    }
}

/// Law of the UDP header: each field of a header read from `frame` holds
/// the bytes at its own offset, and the header's text shows each of those
/// values on the line that carries the field's label.
pub proof fn law_udp_fields(p: UDPFrame, frame: Seq<u8>)
    requires
        p.decodes(frame),
        frame.len() >= 8,
    ensures
        p.src == be16(frame, 0),
        p.dst == be16(frame, 2),
        p.lenght == be16(frame, 4),
        p.checksum == be16(frame, 6),
        p.spec_values() == values_of(UDPFrame::spec_fields(), frame),
        shows_line(UDPFrame::spec_fields(), p.spec_values(), "Source Port"@, decimal(be16(frame, 0) as nat)),
        shows_line(UDPFrame::spec_fields(), p.spec_values(), "Destination Port"@, decimal(be16(frame, 2) as nat)),
        shows_line(UDPFrame::spec_fields(), p.spec_values(), "Length"@, decimal(be16(frame, 4) as nat)),
        shows_line(UDPFrame::spec_fields(), p.spec_values(), "Checksum"@, decimal(be16(frame, 6) as nat)),
{
    p.lemma_values_agree(frame);
    assert(UDPFrame::spec_fields()[0].label == "Source Port"@ && p.spec_values()[0] == decimal(be16(frame, 0) as nat));
    assert(UDPFrame::spec_fields()[1].label == "Destination Port"@ && p.spec_values()[1] == decimal(be16(frame, 2) as nat));
    assert(UDPFrame::spec_fields()[2].label == "Length"@ && p.spec_values()[2] == decimal(be16(frame, 4) as nat));
    assert(UDPFrame::spec_fields()[3].label == "Checksum"@ && p.spec_values()[3] == decimal(be16(frame, 6) as nat));
}

/// Law of the UDP header layout: a frame shorter than 8 bytes is refused
/// as `InvalidValue`; from any other frame the header is 8 bytes long,
/// the packet is all of the frame's bytes (the header states no length)
/// and no payload protocol is selected.
pub proof fn law_udp_layout(d: Seq<u8>)
    ensures
        d.len() < 8 ==> spec_parse_meta(UDPFrame::spec_layout(), d) == Result::<(int, int, Option<u32>), ParseError>::Err(ParseError::InvalidValue),
        d.len() >= 8 ==> spec_parse_meta(UDPFrame::spec_layout(), d) == Result::<(int, int, Option<u32>), ParseError>::Ok((8, d.len() as int, None)),
{
}

} // verus!
