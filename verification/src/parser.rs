//! Walking the protocol layers of a frame.

use vstd::prelude::*;

use bytes::Bytes;

use crate::buffer::{bytes_as_slice, bytes_clone, bytes_len, bytes_slice, bytes_view};
use crate::format::{fields_fit, frame_text, lemma_fields_fit_grow, render_frame, FrameFormat, FrameFormatView};
use crate::packet::Packet;
use crate::registry::{
    is_child, parse_with_layout, spec_parse_meta, ProtocolId, ProtocolRegistry, RegistryModel,
};
use crate::utils::ParseError;

verus! {

/// One decoded layer: which protocol it is, its bytes (header and
/// payload), and how its protocol's header is written as text.
pub struct ParsedLayer<'a> {
    protocol: ProtocolId,
    type_tag: u32,
    data: Bytes,
    header_len: usize,
    format: &'a FrameFormat,
    layout_size: usize,
}

/// A layer as a value.
pub struct LayerView {
    pub protocol: nat,
    pub type_tag: u32,
    pub data: Seq<u8>,
    pub header_len: nat,
    /// The name and text fields of the layer's protocol.
    pub format: FrameFormatView,
    /// The number of bytes the protocol's header layout reads.
    pub layout_size: nat,
}

impl<'a> View for ParsedLayer<'a> {
    type V = LayerView;

    closed spec fn view(&self) -> LayerView {
        LayerView {
            protocol: self.protocol.0 as nat,
            type_tag: self.type_tag,
            data: bytes_view(self.data),
            header_len: self.header_len as nat,
            format: self.format@,
            layout_size: self.layout_size as nat,
        }
    }
}

impl<'a> ParsedLayer<'a> {
    /// The header lies inside the layer's bytes, and the text fields lie
    /// inside the header layout.
    #[verifier::type_invariant]
    closed spec fn inv(self) -> bool {
        &&& self.header_len <= bytes_view(self.data).len()
        &&& fields_fit(self.format@.fields, self.layout_size as nat)
    }

    /// The text of the layer's header: a line with the protocol's name and
    /// a line for each of its fields. A header shorter than its protocol's
    /// layout cannot be read, and gives `InvalidValue`.
    pub fn to_string(&self) -> (r: Result<String, ParseError>)
        ensures
            r is Ok <==> self@.header_len >= self@.layout_size,
            r matches Ok(s) ==> s@ == frame_text(
                self@.format.name,
                self@.format.fields,
                self@.data.take(self@.header_len as int),
            ),
            r matches Err(e) ==> e == ParseError::InvalidValue,
    {
        proof {
            use_type_invariant(self);
        }
        if self.header_len < self.layout_size {
            return Err(ParseError::InvalidValue);
        }
        let h = self.header();
        proof {
            lemma_fields_fit_grow(self.format@.fields, self.layout_size as nat, h@.len());
        }
        Ok(render_frame(self.format.name.as_str(), &self.format.fields, h))
    }

    /// The id of the layer's protocol.
    pub fn protocol(&self) -> (r: ProtocolId)
        ensures
            r.0 == self@.protocol,
    {
        self.protocol
    }

    /// The header bytes.
    pub fn header(&self) -> (r: &[u8])
        ensures
            r@ == self@.data.take(self@.header_len as int),
            r@.len() == self@.header_len,
            self@.header_len <= self@.data.len(),
    {
        proof {
            use_type_invariant(self);
        }
        let all = bytes_as_slice(&self.data);
        &all[0..self.header_len]
    }

    /// The bytes after the header.
    pub fn payload(&self) -> (r: &[u8])
        ensures
            r@ == self@.data.skip(self@.header_len as int),
            r@.len() == self@.data.len() - self@.header_len,
    {
        proof {
            use_type_invariant(self);
        }
        let all = bytes_as_slice(&self.data);
        let r = &all[self.header_len..all.len()];
        proof {
            assert(r@ =~= self@.data.skip(self@.header_len as int));
        }
        r
    }

    /// Header and payload.
    pub fn data(&self) -> (r: &[u8])
        ensures
            r@ == self@.data,
            self@.header_len <= self@.data.len(),
    {
        proof {
            use_type_invariant(self);
        }
        bytes_as_slice(&self.data)
    }

    /// Whether the layer is of protocol `P`.
    pub fn is<P: Packet>(&self) -> (r: bool)
        ensures
            r == (self@.type_tag == P::spec_type_tag()),
    {
        self.type_tag == P::type_tag()
    }

    /// The layer's header read as `P`, if the layer is of protocol `P` and
    /// its header is long enough.
    pub fn get<P: Packet>(&self) -> (r: Option<P>)
        ensures
            r is Some <==> self@.type_tag == P::spec_type_tag() && self@.header_len >= P::spec_layout().size,
            r matches Some(p) ==> p.decodes(self@.data.take(self@.header_len as int)),
    {
        proof {
            use_type_invariant(self);
        }
        if !self.is::<P>() {
            return None;
        }
        match P::parse(self.header()) {
            Ok(p) => Some(p),
            Err(_) => None,
        }
    }
}

/// The state of a walk through the layers of one frame: the protocol of the
/// next layer and the bytes it starts at.
pub struct ParseIter<'a> {
    registry: &'a ProtocolRegistry,
    current: Option<ProtocolId>,
    data: Option<Bytes>,
    origin: Ghost<(Option<nat>, Option<Seq<u8>>)>,
    steps: Ghost<nat>,
}

/// A walk's state as a value.
pub struct ParseIterView {
    pub registry: RegistryModel,
    pub formats: Seq<FrameFormatView>,
    pub current: Option<nat>,
    pub data: Option<Seq<u8>>,
    /// Where the walk started: its first protocol and bytes.
    pub origin: (Option<nat>, Option<Seq<u8>>),
    /// How many steps the walk has taken.
    pub steps: nat,
}

impl<'a> View for ParseIter<'a> {
    type V = ParseIterView;

    closed spec fn view(&self) -> ParseIterView {
        ParseIterView {
            registry: self.registry@,
            formats: self.registry.formats(),
            current: id_view(self.current),
            data: data_view(self.data),
            origin: self.origin@,
            steps: self.steps@,
        }
    }
}

/// A decoded layer or parse error, as a value.
pub open spec fn item_view<'a>(r: Option<Result<ParsedLayer<'a>, ParseError>>) -> Option<Result<LayerView, ParseError>> {
    match r {
        Some(Ok(l)) => Some(Ok(l@)),
        Some(Err(e)) => Some(Err(e)),
        None => None,
    }
}

/// One step of a walk: the item it yields and the state after it.
///
/// With no protocol or no bytes left it yields nothing and keeps its state.
/// Otherwise the layer's protocol reads the bytes; an error ends the walk.
/// A layer spans the first `packet_len` bytes; if its next selector leads to
/// a child protocol, the walk continues with that child on the bytes between
/// the header and the end of the packet, and else it ends.
pub open spec fn spec_step(
    m: RegistryModel,
    formats: Seq<FrameFormatView>,
    current: Option<nat>,
    data: Option<Seq<u8>>,
) -> (
    Option<Result<LayerView, ParseError>>,
    Option<nat>,
    Option<Seq<u8>>,
) {
    match current {
        None => (None, current, data),
        Some(c) => match data {
            None => (None, current, data),
            Some(d) => {
                let entry = m.protocols[c as int];
                match spec_parse_meta(entry.layout, d) {
                    Err(e) => (Some(Err(e)), None, None),
                    Ok((h, p, next)) => if h > p || p > d.len() {
                        (Some(Err(ParseError::InvalidValue)), None, None)
                    } else {
                        let nxt = match next {
                            Some(sel) => m.resolve(c as int, sel),
                            None => None,
                        };
                        let layer = LayerView {
                            protocol: c,
                            type_tag: entry.tag,
                            data: d.take(p),
                            header_len: h as nat,
                            format: formats[c as int],
                            layout_size: entry.layout.size as nat,
                        };
                        match nxt {
                            Some(n) => (Some(Ok(layer)), Some(n as nat), Some(d.subrange(h, p))),
                            None => (Some(Ok(layer)), None, None),
                        }
                    },
                }
            },
        },
    }
}

/// A protocol id as a value.
pub open spec fn id_view(c: Option<ProtocolId>) -> Option<nat> {
    match c {
        Some(id) => Some(id.0 as nat),
        None => None,
    }
}

/// Bytes as a value.
pub open spec fn data_view(d: Option<Bytes>) -> Option<Seq<u8>> {
    match d {
        Some(b) => Some(bytes_view(b)),
        None => None,
    }
}

/// One step of a walk over `registry` from protocol `current` and bytes
/// `data`, as [`spec_step`] describes.
fn step<'a>(registry: &'a ProtocolRegistry, current: Option<ProtocolId>, data: Option<Bytes>) -> (r: (
    Option<Result<ParsedLayer<'a>, ParseError>>,
    Option<ProtocolId>,
    Option<Bytes>,
))
    requires
        current matches Some(c) ==> c.0 < registry@.protocols.len(),
    ensures
        (item_view(r.0), id_view(r.1), data_view(r.2)) == spec_step(
            registry@,
            registry.formats(),
            id_view(current),
            data_view(data),
        ),
        r.1 matches Some(c) ==> c.0 < registry@.protocols.len(),
{
    let protocol = match current {
        Some(p) => p,
        None => return (None, current, data),
    };
    let data = match data {
        Some(d) => d,
        None => return (None, current, None),
    };
    let entry = match registry.protocol(protocol) {
        Some(e) => e,
        None => {
            proof {
                assert(false);
            }
            return (None, None, None);
        },
    };
    let format = match registry.format(protocol) {
        Some(f) => f,
        None => {
            proof {
                assert(false);
            }
            return (None, None, None);
        },
    };
    proof {
        reveal(RegistryModel::wf);
    }
    let slice = bytes_as_slice(&data);
    let meta = match parse_with_layout(&entry.layout, slice) {
        Ok(m) => m,
        Err(e) => {
            return (Some(Err(e)), None, None);
        },
    };
    if meta.header_len > meta.packet_len || meta.packet_len > bytes_len(&data) {
        return (Some(Err(ParseError::InvalidValue)), None, None);
    }
    let next_protocol = match meta.next {
        Some(sel) => registry.resolve(protocol, sel),
        None => None,
    };
    let layer_data = bytes_slice(&data, 0, meta.packet_len);
    let next_data = match next_protocol {
        Some(_) => Some(bytes_slice(&data, meta.header_len, meta.packet_len)),
        None => None,
    };
    proof {
        if let Some(n) = next_protocol {
            assert(n.0 < registry@.protocols.len()) by {
                reveal(RegistryModel::wf);
            }
        }
    }
    let layer = ParsedLayer {
        protocol,
        type_tag: entry.tag,
        data: layer_data,
        header_len: meta.header_len,
        format,
        layout_size: entry.layout.size,
    };
    (Some(Ok(layer)), next_protocol, next_data)
}

impl<'a> ParseIter<'a> {
    /// The next protocol, if any, is one of the registry's, and the walk's
    /// state is where its steps so far lead from where it started.
    #[verifier::type_invariant]
    closed spec fn inv(self) -> bool {
        &&& self.current matches Some(c) ==> c.0 < self.registry@.protocols.len()
        &&& (id_view(self.current), data_view(self.data)) == walk_state(
            self.registry@,
            self.registry.formats(),
            self.origin@.0,
            self.origin@.1,
            self.steps@,
        )
    }

    /// Decodes the next layer, as [`spec_step`] describes: it is what the
    /// walk from where it started yields at its next step.
    pub fn next(&mut self) -> (r: Option<Result<ParsedLayer<'a>, ParseError>>)
        ensures
            (item_view(r), final(self)@.current, final(self)@.data) == spec_step(
                old(self)@.registry,
                old(self)@.formats,
                old(self)@.current,
                old(self)@.data,
            ),
            item_view(r) == walk_item(
                old(self)@.registry,
                old(self)@.formats,
                old(self)@.origin.0,
                old(self)@.origin.1,
                old(self)@.steps,
            ),
            final(self)@.registry == old(self)@.registry,
            final(self)@.formats == old(self)@.formats,
            final(self)@.origin == old(self)@.origin,
            final(self)@.steps == old(self)@.steps + 1,
    {
        proof {
            use_type_invariant(&*self);
        }
        let registry = self.registry;
        let data = match &self.data {
            Some(b) => Some(bytes_clone(b)),
            None => None,
        };
        let (r, current, rest) = step(registry, self.current, data);
        let origin = self.origin;
        let steps = Ghost((self.steps@ + 1) as nat);
        *self = ParseIter { registry, current, data: rest, origin, steps };
        r
    }
}

/// Splits frames into layers with the protocols of a registry.
pub struct Parser {
    registry: ProtocolRegistry,
}

impl View for Parser {
    type V = RegistryModel;

    closed spec fn view(&self) -> RegistryModel {
        self.registry@
    }
}

impl Parser {
    /// The name and text fields of each protocol of the parser's registry.
    pub closed spec fn formats(&self) -> Seq<FrameFormatView> {
        self.registry.formats()
    }
}

impl Parser {
    /// A parser over `registry`.
    pub fn new(registry: ProtocolRegistry) -> (r: Self)
        ensures
            r@ == registry@,
            r.formats() == registry.formats(),
    {
        Parser { registry }
    }

    /// The walk through the layers of `data`, starting at the root protocol.
    pub fn parse(&self, data: Bytes) -> (r: ParseIter<'_>)
        ensures
            r@.registry == self@,
            r@.formats == self.formats(),
            r@.current == Some(self@.root),
            r@.data == Some(bytes_view(data)),
            r@.origin == (Some(self@.root), Some(bytes_view(data))),
            r@.steps == 0,
    {
        let root = self.registry.root();
        proof {
            reveal(RegistryModel::wf);
        }
        let ghost start = (Some(root.0 as nat), Some(bytes_view(data)));
        ParseIter { registry: &self.registry, current: Some(root), data: Some(data), origin: Ghost(start), steps: Ghost(0) }
    }
}


/// Law of the walk: once it has no protocol left (after the last layer or
/// after an error), it yields nothing and stays where it is.
pub proof fn law_walk_end_is_final(m: RegistryModel, formats: Seq<FrameFormatView>, data: Option<Seq<u8>>)
    ensures
        spec_step(m, formats, None, data) == (None::<Result<LayerView, ParseError>>, None::<nat>, data),
{
}

/// Law of the walk: an error ends it.
pub proof fn law_error_ends_walk(
    m: RegistryModel,
    formats: Seq<FrameFormatView>,
    current: Option<nat>,
    data: Option<Seq<u8>>,
)
    requires
        spec_step(m, formats, current, data).0 matches Some(Err(_)),
    ensures
        spec_step(m, formats, current, data).1 is None,
        spec_step(m, formats, current, data).2 is None,
{
}

/// Law of the walk: a layer's header and payload make up its bytes, its
/// bytes are a prefix of what it was read from, and when the walk goes on,
/// the next layer is read from exactly this layer's payload, with the
/// protocol that the layer's selector resolves to.
pub proof fn law_payload_is_next_layer(m: RegistryModel, formats: Seq<FrameFormatView>, c: nat, d: Seq<u8>)
    requires
        spec_step(m, formats, Some(c), Some(d)).0 matches Some(Ok(_)),
    ensures
        ({
            let (item, next, rest) = spec_step(m, formats, Some(c), Some(d));
            let layer = item->Some_0->Ok_0;
            &&& layer.protocol == c
            &&& layer.header_len <= layer.data.len()
            &&& layer.data.len() <= d.len()
            &&& layer.data == d.take(layer.data.len() as int)
            &&& layer.data.take(layer.header_len as int) + layer.data.skip(layer.header_len as int) == layer.data
            &&& next is Some ==> rest == Some(layer.data.skip(layer.header_len as int))
            &&& next is None ==> rest is None
        }),
{
    let (item, next, rest) = spec_step(m, formats, Some(c), Some(d));
    let layer = item->Some_0->Ok_0;
    assert(layer.data.take(layer.header_len as int) + layer.data.skip(layer.header_len as int) =~= layer.data);
    if next is Some {
        assert(rest->Some_0 =~= layer.data.skip(layer.header_len as int));
    }
}

/// Every header that a protocol of `m` reads from any bytes is at least one
/// byte long.
pub open spec fn headers_nonempty(m: RegistryModel) -> bool {
    forall|i: int, d: Seq<u8>|
        0 <= i < m.protocols.len() ==> (#[trigger] spec_parse_meta(m.protocols[i].layout, d) matches Ok(
            t,
        ) ==> t.0 >= 1)
}

/// The protocol and bytes a walk has left after `n` steps.
pub open spec fn walk_state(
    m: RegistryModel,
    formats: Seq<FrameFormatView>,
    current: Option<nat>,
    data: Option<Seq<u8>>,
    n: nat,
) -> (Option<nat>, Option<Seq<u8>>)
    decreases n,
{
    if n == 0 {
        (current, data)
    } else {
        let s = walk_state(m, formats, current, data, (n - 1) as nat);
        let t = spec_step(m, formats, s.0, s.1);
        (t.1, t.2)
    }
}

/// What a walk yields at its step `n`, counting from zero.
pub open spec fn walk_item(
    m: RegistryModel,
    formats: Seq<FrameFormatView>,
    current: Option<nat>,
    data: Option<Seq<u8>>,
    n: nat,
) -> Option<Result<LayerView, ParseError>> {
    let s = walk_state(m, formats, current, data, n);
    spec_step(m, formats, s.0, s.1).0
}

/// The walk from the root over `d` has, after `k` steps, either nothing
/// left or a protocol of the registry and at most `d.len() - k` bytes.
proof fn lemma_walk_shrinks(m: RegistryModel, formats: Seq<FrameFormatView>, d: Seq<u8>, k: nat)
    requires
        m.wf(),
        headers_nonempty(m),
    ensures
        ({
            let s = walk_state(m, formats, Some(m.root), Some(d), k);
            ||| s == (None::<nat>, None::<Seq<u8>>)
            ||| s matches (Some(c), Some(x)) && c < m.protocols.len() && x.len() + k <= d.len()
        }),
    decreases k,
{
    reveal(RegistryModel::wf);
    if k > 0 {
        lemma_walk_shrinks(m, formats, d, (k - 1) as nat);
        let s = walk_state(m, formats, Some(m.root), Some(d), (k - 1) as nat);
        if let (Some(c), Some(x)) = s {
            let entry = m.protocols[c as int];
            if let Ok((h, p, next)) = spec_parse_meta(entry.layout, x) {
                assert(h >= 1);
                if !(h > p || p > x.len()) {
                    if let Some(sel) = next {
                        if let Some(n) = m.resolve(c as int, sel) {
                            assert(is_child(m.protocols, c as int, n, sel));
                        }
                    }
                }
            }
        }
    }
}

/// Law of the walk: a walk over `d` from the root of a registry whose
/// headers are never empty yields at most `d.len() + 1` items, its first
/// layer is of the root protocol, once it yields nothing it yields nothing
/// ever after, and every layer's payload is shorter than the layer.
pub proof fn law_walk_is_bounded(m: RegistryModel, formats: Seq<FrameFormatView>, d: Seq<u8>, n: nat)
    requires
        m.wf(),
        headers_nonempty(m),
    ensures
        n > d.len() ==> walk_item(m, formats, Some(m.root), Some(d), n) is None,
        walk_item(m, formats, Some(m.root), Some(d), 0) matches Some(Ok(l)) ==> l.protocol == m.root,
        walk_item(m, formats, Some(m.root), Some(d), n) is None ==> walk_item(
            m,
            formats,
            Some(m.root),
            Some(d),
            n + 1,
        ) is None,
        walk_item(m, formats, Some(m.root), Some(d), n) matches Some(Ok(l)) ==> l.data.skip(
            l.header_len as int,
        ).len() < l.data.len(),
{
    reveal(RegistryModel::wf);
    lemma_walk_shrinks(m, formats, d, n);
    let s = walk_state(m, formats, Some(m.root), Some(d), n);
    if let (Some(c), Some(x)) = s {
        let entry = m.protocols[c as int];
        if let Ok((h, p, next)) = spec_parse_meta(entry.layout, x) {
            assert(h >= 1);
        }
    }
    assert(walk_state(m, formats, Some(m.root), Some(d), n + 1) == {
        let t = spec_step(m, formats, s.0, s.1);
        (t.1, t.2)
    });
}

/// Law of typed access: a header decodes to one value of `P` at most, so
/// what `get::<P>()` gives for a layer is exactly what `P::parse` gives on
/// the layer's header (both results decode it). With `get`'s contract this
/// makes `get::<P>()` the parse of the header whenever the layer is of `P`
/// and its header covers `P`'s layout, and `None` otherwise.
pub proof fn law_get_is_the_parse<P: Packet>(l: LayerView, got: P, parsed: P)
    requires
        got.decodes(l.data.take(l.header_len as int)),
        parsed.decodes(l.data.take(l.header_len as int)),
    ensures
        got == parsed,
{
    got.lemma_decodes_unique(&parsed, l.data.take(l.header_len as int));
}

/// Law of the walk: a layer it yields for protocol `c` carries that
/// protocol's tag, layout size and text format, so `is` and `get` on the
/// layer answer for the protocol the registry holds at `c`.
pub proof fn law_layer_is_of_its_protocol(
    m: RegistryModel,
    formats: Seq<FrameFormatView>,
    c: nat,
    d: Seq<u8>,
)
    requires
        spec_step(m, formats, Some(c), Some(d)).0 matches Some(Ok(_)),
    ensures
        ({
            let l = spec_step(m, formats, Some(c), Some(d)).0->Some_0->Ok_0;
            &&& l.protocol == c
            &&& l.type_tag == m.protocols[c as int].tag
            &&& l.layout_size == m.protocols[c as int].layout.size
            &&& l.format == formats[c as int]
        }),
{
}

} // verus!
