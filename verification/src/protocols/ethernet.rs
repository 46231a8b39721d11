//! Ethernet II frame header.

use vstd::prelude::*;
use vstd::string::*;

use crate::addrs::{lemma_mac_view_eq, mac_text, MacAddr};
use crate::format::{
    format_views, lemma_labels_fit, render_values, values_of, FieldFormat, FieldFormatView, FieldKind,
};
use crate::text::{decimal, decimal_string};
use crate::packet::{FieldRef, HeaderLen, Layer, Packet, PacketLayout};
use crate::protocols::ETHERNET_TAG;
use crate::utils::ParseError;
use crate::wire::{be16, read_be_u16};

use crate::format::shows_line;
use crate::registry::spec_parse_meta;

verus! {

/// The Ethernet II header: destination, source and EtherType.
#[derive(Debug, Clone, Copy, PartialEq, Eq)]
pub struct EthernetFrame {
    pub dst: MacAddr,
    pub src: MacAddr,
    pub ty: u16,
}

impl Packet for EthernetFrame {
    open spec fn spec_type_tag() -> u32 {
        ETHERNET_TAG
    }

    open spec fn spec_parent_tag() -> Option<u32> {
        None
    }

    open spec fn spec_selector() -> u32 {
        0
    }

    open spec fn spec_protocol_name() -> Seq<char> {
        "EthernetFrame"@
    }

    open spec fn spec_layout() -> PacketLayout {
        PacketLayout {
            size: 14,
            next: Some(FieldRef { offset: 12, width: 2 }),
            header_len: HeaderLen::Fixed,
            packet_len: None,
        }
    }

    open spec fn decodes(&self, frame: Seq<u8>) -> bool {
        &&& self.dst@ == frame.subrange(0, 6)
        &&& self.src@ == frame.subrange(6, 12)
        &&& self.ty == be16(frame, 12)
    }

    open spec fn spec_next_selector(&self) -> Option<u32> {
        Some(self.ty as u32)
    }

    open spec fn spec_header_len(&self) -> int {
        14
    }

    open spec fn spec_packet_len(&self) -> Option<int> {
        None
    }

    open spec fn spec_layer() -> Layer {
        Layer::Physical
    }

    fn layer() -> (r: Layer) {
        Layer::Physical
    }

    fn type_tag() -> (r: u32) {
        ETHERNET_TAG
    }

    fn parent_tag() -> (r: Option<u32>) {
        None
    }

    fn selector() -> (r: u32) {
        0
    }

    fn protocol_name() -> (r: &'static str) {
        "EthernetFrame"
    }

    fn layout() -> (r: PacketLayout) {
        PacketLayout {
            size: 14,
            next: Some(FieldRef { offset: 12, width: 2 }),
            header_len: HeaderLen::Fixed,
            packet_len: None,
        }
    }

    fn parse(frame: &[u8]) -> (r: Result<Self, ParseError>) {
        if frame.len() < 14 {
            return Err(ParseError::InvalidValue);
        }
        Ok(EthernetFrame {
            dst: MacAddr::read_at(frame, 0),
            src: MacAddr::read_at(frame, 6),
            ty: read_be_u16(frame, 12),
        })
    }

    fn next_selector(&self) -> (r: Option<u32>) {
        Some(self.ty as u32)
    }

    fn header_len(&self) -> (r: usize) {
        14
    }

    fn packet_len(&self) -> (r: Option<usize>) {
        None
    }

    open spec fn spec_fields() -> Seq<FieldFormatView> {
        seq![
            FieldFormatView { label: "Dst"@, offset: 0, kind: FieldKind::Mac },
            FieldFormatView { label: "Src"@, offset: 6, kind: FieldKind::Mac },
            FieldFormatView { label: "Ty"@, offset: 12, kind: FieldKind::Number { width: 2 } },
        ]
    }

    fn fields() -> (r: Vec<FieldFormat>) {
        proof {
            reveal_strlit("Dst");
            reveal_strlit("Src");
            reveal_strlit("Ty");
        }
        let r = vec![
            FieldFormat { label: "Dst", offset: 0, kind: FieldKind::Mac },
            FieldFormat { label: "Src", offset: 6, kind: FieldKind::Mac },
            FieldFormat { label: "Ty", offset: 12, kind: FieldKind::Number { width: 2 } },
        ];
        proof {
            assert(format_views(r@) =~= Self::spec_fields());
        }
        r
    }

    open spec fn spec_values(&self) -> Seq<Seq<char>> {
        seq![
            mac_text(self.dst@),
            mac_text(self.src@),
            decimal(self.ty as nat),
        ]
    }

    fn to_string(&self) -> (r: String) {
        let values = vec![
            self.dst.to_string(),
            self.src.to_string(),
            decimal_string(self.ty as u64),
        ];
        let fields = Self::fields();
        proof {
            assert(values@.map_values(|v: String| v@) =~= self.spec_values());
            lemma_labels_fit(fields@, Self::spec_layout().size as nat);
            assert(format_views(fields@).len() == fields@.len());
        }
        render_values(Self::protocol_name(), &fields, &values)
    }

    proof fn lemma_values_agree(&self, frame: Seq<u8>) {
        assert(values_of(Self::spec_fields(), frame) =~= self.spec_values());
    }

    proof fn lemma_decodes_unique(&self, other: &Self, frame: Seq<u8>) {
        lemma_mac_view_eq(self.dst, other.dst);
        lemma_mac_view_eq(self.src, other.src);
    }

    proof fn lemma_layout_agrees(&self, frame: Seq<u8>) {
    }
}

/// Law of the Ethernet header: each field of a header read from `frame` holds
/// the bytes at its own offset, and the header's text shows each of those
/// values on the line that carries the field's label.
pub proof fn law_ethernet_fields(p: EthernetFrame, frame: Seq<u8>)
    requires
        p.decodes(frame),
        frame.len() >= 14,
    ensures
        p.dst@ == frame.subrange(0, 6),
        p.src@ == frame.subrange(6, 12),
        p.ty == be16(frame, 12),
        p.spec_values() == values_of(EthernetFrame::spec_fields(), frame),
        shows_line(EthernetFrame::spec_fields(), p.spec_values(), "Dst"@, mac_text(frame.subrange(0, 6))),
        shows_line(EthernetFrame::spec_fields(), p.spec_values(), "Src"@, mac_text(frame.subrange(6, 12))),
        shows_line(EthernetFrame::spec_fields(), p.spec_values(), "Ty"@, decimal(be16(frame, 12) as nat)),
{
    p.lemma_values_agree(frame);
    assert(EthernetFrame::spec_fields()[0].label == "Dst"@ && p.spec_values()[0] == mac_text(frame.subrange(0, 6)));
    assert(EthernetFrame::spec_fields()[1].label == "Src"@ && p.spec_values()[1] == mac_text(frame.subrange(6, 12)));
    assert(EthernetFrame::spec_fields()[2].label == "Ty"@ && p.spec_values()[2] == decimal(be16(frame, 12) as nat));
}

/// Law of the Ethernet header layout: a frame shorter than 14 bytes is refused
/// as `InvalidValue`; from any other frame the header is 14 bytes long,
/// the packet is all of the frame's bytes (the header states no length)
/// and the EtherType at bytes 12..14 selects the payload's protocol.
pub proof fn law_ethernet_layout(d: Seq<u8>)
    ensures
        d.len() < 14 ==> spec_parse_meta(EthernetFrame::spec_layout(), d) == Result::<(int, int, Option<u32>), ParseError>::Err(ParseError::InvalidValue),
        d.len() >= 14 ==> spec_parse_meta(EthernetFrame::spec_layout(), d) == Result::<(int, int, Option<u32>), ParseError>::Ok((14, d.len() as int, Some(be16(d, 12) as u32))),
{
}

} // verus!
