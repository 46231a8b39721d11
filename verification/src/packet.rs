//! What a protocol header is: its OSI layer, its place under a parent
//! protocol, and the layout from which its lengths and next selector are read.

use vstd::prelude::*;

use crate::format::{
    fields_fit, format_views, frame_text, lemma_frame_text_is_text_of_values, text_of, values_of, FieldFormat,
    FieldFormatView,
};
use crate::utils::ParseError;
use crate::wire::{be16, be32};

verus! {

/// The OSI layer a protocol belongs to.
#[derive(Debug, Clone, Copy, PartialEq, Eq, Structural)]
pub enum Layer {
    Physical,
    DataLink,
    Network,
    Transport,
    Session,
    Presentation,
    Application,
}

/// A header field holding a big-endian unsigned number of `width` bytes
/// (1, 2 or 4) at byte `offset`.
#[derive(Debug, Clone, Copy, PartialEq, Eq, Structural)]
pub struct FieldRef {
    pub offset: usize,
    pub width: usize,
}

/// How the length of a header is found.
#[derive(Debug, Clone, Copy, PartialEq, Eq, Structural)]
pub enum HeaderLen {
    /// The header is exactly as long as its fixed layout.
    Fixed,
    /// The low four bits of the byte at `offset` count 32-bit words,
    /// as in the IPv4 IHL field.
    IhlWords { offset: usize },
}

/// The byte layout of a fixed-size protocol header.
#[derive(Debug, Clone, Copy, PartialEq, Eq, Structural)]
pub struct PacketLayout {
    /// Number of bytes a frame must have for the header to be read.
    pub size: usize,
    /// The field that selects the protocol of the payload, if any.
    pub next: Option<FieldRef>,
    /// How long the header is.
    pub header_len: HeaderLen,
    /// The field that gives the length of header and payload together, if any.
    pub packet_len: Option<FieldRef>,
}

/// The value of field `f` in `s`.
pub open spec fn field_value(s: Seq<u8>, f: FieldRef) -> int {
    if f.width == 1 {
        s[f.offset as int] as int
    } else if f.width == 2 {
        be16(s, f.offset as int)
    } else {
        be32(s, f.offset as int)
    }
}

/// A field that fits in a header of `size` bytes.
pub open spec fn field_wf(f: FieldRef, size: usize) -> bool {
    &&& f.width == 1 || f.width == 2 || f.width == 4
    &&& f.offset + f.width <= size
}

impl PacketLayout {
    /// Every field the layout names lies inside the header.
    pub open spec fn wf(self) -> bool {
        &&& self.next matches Some(f) ==> field_wf(f, self.size)
        &&& self.packet_len matches Some(f) ==> field_wf(f, self.size)
        &&& self.header_len matches HeaderLen::IhlWords { offset } ==> offset < self.size
    }

    /// The header length that this layout reads from `frame`.
    pub open spec fn spec_header_len(self, frame: Seq<u8>) -> int {
        match self.header_len {
            HeaderLen::Fixed => self.size as int,
            HeaderLen::IhlWords { offset } => (frame[offset as int] % 16) * 4,
        }
    }

    /// The packet length that this layout reads from `frame`, if it has one.
    pub open spec fn spec_packet_len(self, frame: Seq<u8>) -> Option<int> {
        match self.packet_len {
            Some(f) => Some(field_value(frame, f)),
            None => None,
        }
    }

    /// The selector of the payload's protocol that this layout reads from `frame`.
    pub open spec fn spec_next(self, frame: Seq<u8>) -> Option<u32> {
        match self.next {
            Some(f) => Some(field_value(frame, f) as u32),
            None => None,
        }
    }
}

/// Reads field `f` from `frame`.
pub fn read_field(frame: &[u8], f: FieldRef) -> (r: u32)
    requires
        f.width == 1 || f.width == 2 || f.width == 4,
        f.offset + f.width <= frame.len(),
    ensures
        r == field_value(frame@, f),
{
    if f.width == 1 {
        frame[f.offset] as u32
    } else if f.width == 2 {
        crate::wire::read_be_u16(frame, f.offset) as u32
    } else {
        crate::wire::read_be_u32(frame, f.offset)
    }
}

/// A header of a protocol that the registry can route to.
///
/// Each protocol names itself by a type tag, unique among the protocols of
/// one registry, and names its parent protocol by the parent's tag. Its
/// header is read from the first bytes of a frame.
pub trait Packet: Sized {
    /// The tag that identifies this protocol.
    spec fn spec_type_tag() -> u32;

    /// The tag of the parent protocol, or `None` for a root protocol.
    spec fn spec_parent_tag() -> Option<u32>;

    /// The value of the parent's next-selector field that announces this protocol.
    spec fn spec_selector() -> u32;

    /// The byte layout of the header.
    spec fn spec_layout() -> PacketLayout;

    /// `self` holds the fields read from the first bytes of `frame`.
    spec fn decodes(&self, frame: Seq<u8>) -> bool;

    /// The selector of the payload's protocol, read from the header.
    spec fn spec_next_selector(&self) -> Option<u32>;

    /// The length of the header.
    spec fn spec_header_len(&self) -> int;

    /// The length of header and payload together, if the header states it.
    spec fn spec_packet_len(&self) -> Option<int>;

    /// The OSI layer the protocol belongs to.
    spec fn spec_layer() -> Layer;

    /// The OSI layer the protocol belongs to.
    fn layer() -> (r: Layer)
        ensures
            r == Self::spec_layer(),
    ;

    fn type_tag() -> (r: u32)
        ensures
            r == Self::spec_type_tag(),
    ;

    fn parent_tag() -> (r: Option<u32>)
        ensures
            r == Self::spec_parent_tag(),
    ;

    fn selector() -> (r: u32)
        ensures
            r == Self::spec_selector(),
    ;

    /// The protocol's name.
    spec fn spec_protocol_name() -> Seq<char>;

    /// The protocol's name.
    fn protocol_name() -> (r: &'static str)
        ensures
            r@ == Self::spec_protocol_name(),
    ;

    fn layout() -> (r: PacketLayout)
        ensures
            r == Self::spec_layout(),
            r.wf(),
    ;

    /// Reads the header from the first bytes of `frame`.
    fn parse(frame: &[u8]) -> (r: Result<Self, ParseError>)
        ensures
            r is Ok <==> frame@.len() >= Self::spec_layout().size,
            r matches Ok(p) ==> p.decodes(frame@),
            r matches Err(e) ==> e == ParseError::InvalidValue,
    ;

    fn next_selector(&self) -> (r: Option<u32>)
        ensures
            r == self.spec_next_selector(),
    ;

    fn header_len(&self) -> (r: usize)
        ensures
            r == self.spec_header_len(),
    ;

    fn packet_len(&self) -> (r: Option<usize>)
        ensures
            r matches Some(n) ==> self.spec_packet_len() == Some(n as int),
            r is None ==> self.spec_packet_len() is None,
    ;

    /// The fields shown in the header's text, in order.
    spec fn spec_fields() -> Seq<FieldFormatView>;

    /// The fields shown in the header's text, in order.
    fn fields() -> (r: Vec<FieldFormat>)
        ensures
            format_views(r@) == Self::spec_fields(),
            fields_fit(Self::spec_fields(), Self::spec_layout().size as nat),
    ;

    /// The texts of the values of the header's fields, in the order of
    /// [`Packet::spec_fields`].
    spec fn spec_values(&self) -> Seq<Seq<char>>;

    /// The header's text: its protocol's name, then a line for each field.
    fn to_string(&self) -> (r: String)
        ensures
            r@ == text_of(Self::spec_protocol_name(), Self::spec_fields(), self.spec_values()),
    ;

    /// The typed header's value texts are those its fields show when read
    /// from any frame it is read from.
    proof fn lemma_values_agree(&self, frame: Seq<u8>)
        requires
            self.decodes(frame),
            frame.len() >= Self::spec_layout().size,
        ensures
            self.spec_values() == values_of(Self::spec_fields(), frame),
    ;

    /// A frame decodes to at most one header.
    proof fn lemma_decodes_unique(&self, other: &Self, frame: Seq<u8>)
        requires
            self.decodes(frame),
            other.decodes(frame),
        ensures
            *self == *other,
    ;

    /// The typed header and the layout agree on every frame it is read from.
    proof fn lemma_layout_agrees(&self, frame: Seq<u8>)
        requires
            self.decodes(frame),
            frame.len() >= Self::spec_layout().size,
        ensures
            self.spec_next_selector() == Self::spec_layout().spec_next(frame),
            self.spec_header_len() == Self::spec_layout().spec_header_len(frame),
            self.spec_packet_len() == Self::spec_layout().spec_packet_len(frame),
    ;
}

/// Law of header text: a header is written the same from its typed value
/// as from the bytes of any frame it is read from, so a frame's text does
/// not depend on whether it is printed before or after decoding.
pub proof fn law_typed_text_is_frame_text<P: Packet>(p: P, frame: Seq<u8>)
    requires
        p.decodes(frame),
        frame.len() >= P::spec_layout().size,
    ensures
        text_of(P::spec_protocol_name(), P::spec_fields(), p.spec_values()) == frame_text(
            P::spec_protocol_name(),
            P::spec_fields(),
            frame,
        ),
{
    p.lemma_values_agree(frame);
    lemma_frame_text_is_text_of_values(P::spec_protocol_name(), P::spec_fields(), frame);
}

} // verus!
