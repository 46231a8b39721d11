//! TCP segment header, without options.

use vstd::prelude::*;
use vstd::string::*;

use crate::format::{
    format_views, lemma_labels_fit, render_values, values_of, FieldFormat, FieldFormatView, FieldKind,
};
use crate::text::{decimal, decimal_string};
use crate::packet::{HeaderLen, Layer, Packet, PacketLayout};
use crate::protocols::{IPV4_TAG, TCP_TAG};
use crate::utils::ParseError;
use crate::wire::{be16, be32, read_be_u16, read_be_u32};

use crate::format::shows_line;
use crate::registry::spec_parse_meta;

verus! {

/// TCP segment header, without options.
#[derive(Debug, Clone, Copy, PartialEq, Eq)]
pub struct TCPFrame {
    pub source_port: u16,
    pub destination_port: u16,
    pub sequence_number: u32,
    pub acknowledgment_number: u32,
    pub reserved: u8,
    pub flags: u8,
    pub window_size: u16,
    pub checksum: u16,
    pub urgent_pointer: u16,
}

impl Packet for TCPFrame {
    open spec fn spec_type_tag() -> u32 {
        TCP_TAG
    }

    open spec fn spec_parent_tag() -> Option<u32> {
        Some(IPV4_TAG)
    }

    open spec fn spec_selector() -> u32 {
        6
    }

    open spec fn spec_protocol_name() -> Seq<char> {
        "TCPFrame"@
    }

    open spec fn spec_layout() -> PacketLayout {
        PacketLayout {
            size: 20,
            next: None,
            header_len: HeaderLen::Fixed,
            packet_len: None,
        }
    }

    open spec fn decodes(&self, frame: Seq<u8>) -> bool {
        &&& self.source_port == be16(frame, 0)
        &&& self.destination_port == be16(frame, 2)
        &&& self.sequence_number == be32(frame, 4)
        &&& self.acknowledgment_number == be32(frame, 8)
        &&& self.reserved == frame[12]
        &&& self.flags == frame[13]
        &&& self.window_size == be16(frame, 14)
        &&& self.checksum == be16(frame, 16)
        &&& self.urgent_pointer == be16(frame, 18)
    }

    open spec fn spec_next_selector(&self) -> Option<u32> {
        None
    }

    open spec fn spec_header_len(&self) -> int {
        20
    }

    open spec fn spec_packet_len(&self) -> Option<int> {
        None
    }

    open spec fn spec_layer() -> Layer {
        Layer::Network
    }

    fn layer() -> (r: Layer) {
        Layer::Network
    }

    fn type_tag() -> (r: u32) {
        TCP_TAG
    }

    fn parent_tag() -> (r: Option<u32>) {
        Some(IPV4_TAG)
    }

    fn selector() -> (r: u32) {
        6
    }

    fn protocol_name() -> (r: &'static str) {
        "TCPFrame"
    }

    fn layout() -> (r: PacketLayout) {
        PacketLayout {
            size: 20,
            next: None,
            header_len: HeaderLen::Fixed,
            packet_len: None,
        }
    }

    fn parse(frame: &[u8]) -> (r: Result<Self, ParseError>) {
        if frame.len() < 20 {
            return Err(ParseError::InvalidValue);
        }
        Ok(TCPFrame {
            source_port: read_be_u16(frame, 0),
            destination_port: read_be_u16(frame, 2),
            sequence_number: read_be_u32(frame, 4),
            acknowledgment_number: read_be_u32(frame, 8),
            reserved: frame[12],
            flags: frame[13],
            window_size: read_be_u16(frame, 14),
            checksum: read_be_u16(frame, 16),
            urgent_pointer: read_be_u16(frame, 18),
        })
    }

    fn next_selector(&self) -> (r: Option<u32>) {
        None
    }

    fn header_len(&self) -> (r: usize) {
        20
    }

    fn packet_len(&self) -> (r: Option<usize>) {
        None
    }

    open spec fn spec_fields() -> Seq<FieldFormatView> {
        seq![
            FieldFormatView { label: "Source Port"@, offset: 0, kind: FieldKind::Number { width: 2 } },
            FieldFormatView { label: "Destination Port"@, offset: 2, kind: FieldKind::Number { width: 2 } },
            FieldFormatView { label: "Sequence Number"@, offset: 4, kind: FieldKind::Number { width: 4 } },
            FieldFormatView { label: "Acknowledgment Number"@, offset: 8, kind: FieldKind::Number { width: 4 } },
            FieldFormatView { label: "Reserved"@, offset: 12, kind: FieldKind::Number { width: 1 } },
            FieldFormatView { label: "Flags"@, offset: 13, kind: FieldKind::Number { width: 1 } },
            FieldFormatView { label: "Window Size"@, offset: 14, kind: FieldKind::Number { width: 2 } },
            FieldFormatView { label: "Checksim"@, offset: 16, kind: FieldKind::Number { width: 2 } },
            FieldFormatView { label: "Urgent Pointer"@, offset: 18, kind: FieldKind::Number { width: 2 } },
        ]
    }

    fn fields() -> (r: Vec<FieldFormat>) {
        proof {
            reveal_strlit("Acknowledgment Number");
            reveal_strlit("Checksim");
            reveal_strlit("Destination Port");
            reveal_strlit("Flags");
            reveal_strlit("Reserved");
            reveal_strlit("Sequence Number");
            reveal_strlit("Source Port");
            reveal_strlit("Urgent Pointer");
            reveal_strlit("Window Size");
        }
        let r = vec![
            FieldFormat { label: "Source Port", offset: 0, kind: FieldKind::Number { width: 2 } },
            FieldFormat { label: "Destination Port", offset: 2, kind: FieldKind::Number { width: 2 } },
            FieldFormat { label: "Sequence Number", offset: 4, kind: FieldKind::Number { width: 4 } },
            FieldFormat { label: "Acknowledgment Number", offset: 8, kind: FieldKind::Number { width: 4 } },
            FieldFormat { label: "Reserved", offset: 12, kind: FieldKind::Number { width: 1 } },
            FieldFormat { label: "Flags", offset: 13, kind: FieldKind::Number { width: 1 } },
            FieldFormat { label: "Window Size", offset: 14, kind: FieldKind::Number { width: 2 } },
            FieldFormat { label: "Checksim", offset: 16, kind: FieldKind::Number { width: 2 } },
            FieldFormat { label: "Urgent Pointer", offset: 18, kind: FieldKind::Number { width: 2 } },
        ];
        proof {
            assert(format_views(r@) =~= Self::spec_fields());
        }
        r
    }

    open spec fn spec_values(&self) -> Seq<Seq<char>> {
        seq![
            decimal(self.source_port as nat),
            decimal(self.destination_port as nat),
            decimal(self.sequence_number as nat),
            decimal(self.acknowledgment_number as nat),
            decimal(self.reserved as nat),
            decimal(self.flags as nat),
            decimal(self.window_size as nat),
            decimal(self.checksum as nat),
            decimal(self.urgent_pointer as nat),
        ]
    }

    fn to_string(&self) -> (r: String) {
        let values = vec![
            decimal_string(self.source_port as u64),
            decimal_string(self.destination_port as u64),
            decimal_string(self.sequence_number as u64),
            decimal_string(self.acknowledgment_number as u64),
            decimal_string(self.reserved as u64),
            decimal_string(self.flags as u64),
            decimal_string(self.window_size as u64),
            decimal_string(self.checksum as u64),
            decimal_string(self.urgent_pointer as u64),
        ];
        let fields = Self::fields();
        proof {
            assert(values@.map_values(|v: String| v@) =~= self.spec_values());
            lemma_labels_fit(fields@, Self::spec_layout().size as nat);
            assert(format_views(fields@).len() == fields@.len());
        }
        render_values(Self::protocol_name(), &fields, &values)
    }

    proof fn lemma_values_agree(&self, frame: Seq<u8>) {
        assert(values_of(Self::spec_fields(), frame) =~= self.spec_values());
    }

    proof fn lemma_decodes_unique(&self, other: &Self, frame: Seq<u8>) {
    }

    proof fn lemma_layout_agrees(&self, frame: Seq<u8>) {
    }
}

/// Law of the TCP header: each field of a header read from `frame` holds
/// the bytes at its own offset, and the header's text shows each of those
/// values on the line that carries the field's label.
pub proof fn law_tcp_fields(p: TCPFrame, frame: Seq<u8>)
    requires
        p.decodes(frame),
        frame.len() >= 20,
    ensures
        p.source_port == be16(frame, 0),
        p.destination_port == be16(frame, 2),
        p.sequence_number == be32(frame, 4),
        p.acknowledgment_number == be32(frame, 8),
        p.reserved == frame[12],
        p.flags == frame[13],
        p.window_size == be16(frame, 14),
        p.checksum == be16(frame, 16),
        p.urgent_pointer == be16(frame, 18),
        p.spec_values() == values_of(TCPFrame::spec_fields(), frame),
        shows_line(TCPFrame::spec_fields(), p.spec_values(), "Source Port"@, decimal(be16(frame, 0) as nat)),
        shows_line(TCPFrame::spec_fields(), p.spec_values(), "Destination Port"@, decimal(be16(frame, 2) as nat)),
        shows_line(TCPFrame::spec_fields(), p.spec_values(), "Sequence Number"@, decimal(be32(frame, 4) as nat)),
        shows_line(TCPFrame::spec_fields(), p.spec_values(), "Acknowledgment Number"@, decimal(be32(frame, 8) as nat)),
        shows_line(TCPFrame::spec_fields(), p.spec_values(), "Reserved"@, decimal(frame[12] as nat)),
        shows_line(TCPFrame::spec_fields(), p.spec_values(), "Flags"@, decimal(frame[13] as nat)),
        shows_line(TCPFrame::spec_fields(), p.spec_values(), "Window Size"@, decimal(be16(frame, 14) as nat)),
        shows_line(TCPFrame::spec_fields(), p.spec_values(), "Checksim"@, decimal(be16(frame, 16) as nat)),
        shows_line(TCPFrame::spec_fields(), p.spec_values(), "Urgent Pointer"@, decimal(be16(frame, 18) as nat)),
{
    p.lemma_values_agree(frame);
    assert(TCPFrame::spec_fields()[0].label == "Source Port"@ && p.spec_values()[0] == decimal(be16(frame, 0) as nat));
    assert(TCPFrame::spec_fields()[1].label == "Destination Port"@ && p.spec_values()[1] == decimal(be16(frame, 2) as nat));
    assert(TCPFrame::spec_fields()[2].label == "Sequence Number"@ && p.spec_values()[2] == decimal(be32(frame, 4) as nat));
    assert(TCPFrame::spec_fields()[3].label == "Acknowledgment Number"@ && p.spec_values()[3] == decimal(be32(frame, 8) as nat));
    assert(TCPFrame::spec_fields()[4].label == "Reserved"@ && p.spec_values()[4] == decimal(frame[12] as nat));
    assert(TCPFrame::spec_fields()[5].label == "Flags"@ && p.spec_values()[5] == decimal(frame[13] as nat));
    assert(TCPFrame::spec_fields()[6].label == "Window Size"@ && p.spec_values()[6] == decimal(be16(frame, 14) as nat));
    assert(TCPFrame::spec_fields()[7].label == "Checksim"@ && p.spec_values()[7] == decimal(be16(frame, 16) as nat));
    assert(TCPFrame::spec_fields()[8].label == "Urgent Pointer"@ && p.spec_values()[8] == decimal(be16(frame, 18) as nat));
}

/// Law of the TCP header layout: a frame shorter than 20 bytes is refused
/// as `InvalidValue`; from any other frame the header is 20 bytes long,
/// the packet is all of the frame's bytes (the header states no length)
/// and no payload protocol is selected.
pub proof fn law_tcp_layout(d: Seq<u8>)
    ensures
        d.len() < 20 ==> spec_parse_meta(TCPFrame::spec_layout(), d) == Result::<(int, int, Option<u32>), ParseError>::Err(ParseError::InvalidValue),
        d.len() >= 20 ==> spec_parse_meta(TCPFrame::spec_layout(), d) == Result::<(int, int, Option<u32>), ParseError>::Ok((20, d.len() as int, None)),
{
}

} // verus!
