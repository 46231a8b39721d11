//! The protocol registry: which protocols exist, which one is the root, and
//! which child protocol each (parent, selector) pair leads to.

use vstd::prelude::*;

use crate::format::{
    copy_fields, fields_fit, frame_text, lemma_fields_fit_grow, render_frame, FieldFormat, FieldFormatView, FrameFormat,
    FrameFormatView,
};
use crate::packet::{read_field, HeaderLen, Packet, PacketLayout};
use crate::text::{decimal, hex, push_decimal, push_hex};
use crate::utils::ParseError;
use vstd::string::*;
use crate::protocols::arp::ARPFrame;
use crate::protocols::ethernet::EthernetFrame;
use crate::protocols::icmp::ICMPFrame;
use crate::protocols::ipv4::IPv4Frame;
use crate::protocols::ipv6::IPv6Frame;
use crate::protocols::ospf::OSPFFrame;
use crate::protocols::tcp::TCPFrame;
use crate::protocols::udp::UDPFrame;

verus! {

/// The position of a protocol in a registry.
#[derive(Debug, Clone, Copy, PartialEq, Eq, Structural, Hash, PartialOrd, Ord)]
pub struct ProtocolId(pub u16);

impl ProtocolId {
    /// The position as an index.
    pub fn index(&self) -> (r: usize)
        ensures
            r == self.0,
    {
        self.0 as usize
    }

    /// The id in upper-case hexadecimal after `0x`, such as `0x1F`.
    pub fn to_string(&self) -> (r: String)
        ensures
            r@ == seq!['0', 'x'] + hex(self.0 as nat),
    {
        let mut s = String::new();
        proof {
            reveal_strlit("0x");
        }
        s.append("0x");
        push_hex(&mut s, self.0 as u64);
        s
    }
}

/// A selector value: what a parent header's next-selector field holds to
/// announce a child protocol (an EtherType, an IP protocol number, ...).
#[derive(Debug, Clone, Copy, PartialEq, Eq, Structural, Hash, Ord)]
pub struct ProtocolKey(u32);

impl ProtocolKey {
    /// The key for selector value `key`.
    pub fn new(key: u32) -> (r: Self)
        ensures
            r.spec_get() == key,
    {
        ProtocolKey(key)
    }

    /// The selector value.
    pub closed spec fn spec_get(self) -> u32 {
        self.0
    }

    /// The selector value.
    pub fn get(self) -> (r: u32)
        ensures
            r == self.spec_get(),
    {
        self.0
    }

    /// The selector value in decimal.
    pub fn to_string(&self) -> (r: String)
        ensures
            r@ == decimal(self.spec_get() as nat),
    {
        let mut s = String::new();
        push_decimal(&mut s, self.0 as u64);
        s
    }
}

/// What a protocol's header says about a frame: how long the header is,
/// how long header and payload are together, and the selector of the
/// payload's protocol.
#[derive(Debug, Clone, Copy, PartialEq, Eq, Structural)]
pub struct ParseMeta {
    pub header_len: usize,
    pub packet_len: usize,
    pub next: Option<ProtocolKey>,
}

/// The selector values of an optional key.
pub open spec fn key_value(k: Option<ProtocolKey>) -> Option<u32> {
    match k {
        Some(k) => Some(k.spec_get()),
        None => None,
    }
}

/// Header length, packet length and next selector of a [`ParseMeta`].
pub open spec fn meta_view(m: ParseMeta) -> (int, int, Option<u32>) {
    (m.header_len as int, m.packet_len as int, key_value(m.next))
}

/// What reading `data` with `layout` gives: the header length, the packet
/// length (the whole of `data` when the layout has no length field) and the
/// next selector; or `InvalidValue` when `data` is shorter than the header,
/// the header is longer than the packet, or the packet is shorter than `data`.
pub open spec fn spec_parse_meta(layout: PacketLayout, data: Seq<u8>) -> Result<(int, int, Option<u32>), ParseError> {
    if data.len() < layout.size {
        Err(ParseError::InvalidValue)
    } else {
        let h = layout.spec_header_len(data);
        let p = match layout.spec_packet_len(data) {
            Some(n) => n,
            None => data.len() as int,
        };
        if h > p || p < data.len() {
            Err(ParseError::InvalidValue)
        } else {
            Ok((h, p, layout.spec_next(data)))
        }
    }
}

/// The result of reading `data` with `layout`, as [`spec_parse_meta`] says.
pub open spec fn parse_meta_matches(layout: PacketLayout, data: Seq<u8>, r: Result<ParseMeta, ParseError>) -> bool {
    match spec_parse_meta(layout, data) {
        Ok(t) => r matches Ok(m) && meta_view(m) == t,
        Err(e) => r == Err::<ParseMeta, ParseError>(e),
    }
}

/// Reads the header of `data` as `layout` describes it.
pub fn parse_with_layout(layout: &PacketLayout, data: &[u8]) -> (r: Result<ParseMeta, ParseError>)
    requires
        layout.wf(),
    ensures
        parse_meta_matches(*layout, data@, r),
{
    if data.len() < layout.size {
        return Err(ParseError::InvalidValue);
    }
    let header_len: usize = match layout.header_len {
        HeaderLen::Fixed => layout.size,
        HeaderLen::IhlWords { offset } => {
            let v = data[offset];
            assert(v & 0x0f == v % 16) by (bit_vector);
            ((v & 0x0f) * 4) as usize
        },
    };
    let packet_len: usize = match layout.packet_len {
        Some(f) => read_field(data, f) as usize,
        None => data.len(),
    };
    if header_len > packet_len || packet_len < data.len() {
        return Err(ParseError::InvalidValue);
    }
    let next = match layout.next {
        Some(f) => Some(ProtocolKey::new(read_field(data, f))),
        None => None,
    };
    Ok(ParseMeta { header_len, packet_len, next })
}

/// Reads the header of `data` as packet type `P`: its header length, its
/// packet length (all of `data` if `P` states none) and its next selector.
pub fn parse_protocol<P: Packet>(data: &[u8]) -> (r: Result<ParseMeta, ParseError>)
    ensures
        parse_meta_matches(P::spec_layout(), data@, r),
{
    let packet = match P::parse(data) {
        Ok(p) => p,
        Err(e) => return Err(e),
    };
    proof {
        packet.lemma_layout_agrees(data@);
    }
    let header_len = packet.header_len();
    let packet_len = match packet.packet_len() {
        Some(n) => n,
        None => data.len(),
    };
    if header_len > packet_len || packet_len < data.len() {
        return Err(ParseError::InvalidValue);
    }
    let next = match packet.next_selector() {
        Some(v) => Some(ProtocolKey::new(v)),
        None => None,
    };
    Ok(ParseMeta { header_len, packet_len, next })
}

/// The text of the header of protocol `P` at the start of `data`, as its
/// [`frame_text`] describes; data too short for `P`'s layout gives
/// `InvalidValue`.
pub fn format_protocol<P: Packet>(data: &[u8]) -> (r: Result<String, ParseError>)
    ensures
        r is Ok <==> data@.len() >= P::spec_layout().size,
        r matches Ok(s) ==> s@ == frame_text(P::spec_protocol_name(), P::spec_fields(), data@),
        r matches Err(e) ==> e == ParseError::InvalidValue,
{
    let layout = P::layout();
    if data.len() < layout.size {
        return Err(ParseError::InvalidValue);
    }
    let fields = P::fields();
    proof {
        lemma_fields_fit_grow(P::spec_fields(), layout.size as nat, data@.len());
    }
    Ok(render_frame(P::protocol_name(), &fields, data))
}

/// Where a protocol stands among the others: its tag, its parent's tag,
/// the selector that announces it, and its header layout.
#[derive(Debug, Clone, Copy, PartialEq, Eq, Structural)]
pub struct ProtocolEntry {
    pub tag: u32,
    pub parent: Option<u32>,
    pub selector: u32,
    pub layout: PacketLayout,
}

/// A protocol waiting in a builder, with its name and the fields its
/// header's text shows.
#[derive(Debug)]
pub struct PendingProtocol {
    pub entry: ProtocolEntry,
    pub name: String,
    pub fields: Vec<FieldFormat>,
}

/// A pending protocol as a value: its entry, its name and its fields.
pub struct PendingView {
    pub entry: ProtocolEntry,
    pub name: Seq<char>,
    pub fields: Seq<FieldFormatView>,
}

impl View for PendingProtocol {
    type V = PendingView;

    open spec fn view(&self) -> PendingView {
        PendingView { entry: self.entry, name: self.name@, fields: crate::format::format_views(self.fields@) }
    }
}

/// The pending protocol's layout is well formed and its fields fit in it.
pub open spec fn pending_wf(p: PendingView) -> bool {
    &&& p.entry.layout.wf()
    &&& fields_fit(p.fields, p.entry.layout.size as nat)
}

impl PendingProtocol {
    /// The pending protocol for packet type `P`.
    pub open spec fn spec_of<P: Packet>() -> PendingView {
        PendingView {
            entry: ProtocolEntry {
                tag: P::spec_type_tag(),
                parent: P::spec_parent_tag(),
                selector: P::spec_selector(),
                layout: P::spec_layout(),
            },
            name: P::spec_protocol_name(),
            fields: P::spec_fields(),
        }
    }

    /// The pending protocol for packet type `P`.
    pub fn of<P: Packet>() -> (r: PendingProtocol)
        ensures
            r@ == Self::spec_of::<P>(),
            pending_wf(r@),
    {
        let name = P::protocol_name();
        PendingProtocol {
            entry: ProtocolEntry {
                tag: P::type_tag(),
                parent: P::parent_tag(),
                selector: P::selector(),
                layout: P::layout(),
            },
            name: name.to_owned(),
            fields: P::fields(),
        }
    }

    /// A copy with its own name string.
    pub fn duplicate(&self) -> (r: PendingProtocol)
        ensures
            r@ == self@,
            r.entry == self.entry,
    {
        PendingProtocol { entry: self.entry, name: self.name.clone(), fields: copy_fields(&self.fields) }
    }
}

/// Collects protocols and then checks and links them into a [`ProtocolRegistry`].
pub struct ProtocolRegistryBuilder {
    root: Option<PendingProtocol>,
    protocols: Vec<PendingProtocol>,
}

impl Default for ProtocolRegistryBuilder {
    fn default() -> (r: Self)
        ensures
            r@.root is None,
            r@.protocols == Seq::<PendingView>::empty(),
    {
        Self::new()
    }
}

/// A builder as a value: the root given to `new_with_root`, if any, and the
/// protocols added since, in order.
pub struct BuilderView {
    pub root: Option<PendingView>,
    pub protocols: Seq<PendingView>,
}

impl ProtocolRegistryBuilder {
    /// Every pending protocol has a well-formed layout that its fields fit in.
    #[verifier::type_invariant]
    closed spec fn inv(self) -> bool {
        &&& forall|i: int| 0 <= i < self.protocols@.len() ==> pending_wf((#[trigger] self.protocols@[i])@)
        &&& self.root matches Some(p) ==> pending_wf(p@)
    }
}

impl View for ProtocolRegistryBuilder {
    type V = BuilderView;

    closed spec fn view(&self) -> BuilderView {
        BuilderView {
            root: match self.root {
                Some(p) => Some(p@),
                None => None,
            },
            protocols: self.protocols@.map_values(|p: PendingProtocol| p@),
        }
    }
}

impl ProtocolRegistryBuilder {
    /// An empty builder.
    pub fn new() -> (r: Self)
        ensures
            r@.root is None,
            r@.protocols == Seq::<PendingView>::empty(),
    {
        let r = ProtocolRegistryBuilder { root: None, protocols: Vec::new() };
        assert(r@.protocols =~= Seq::<PendingView>::empty());
        r
    }

    /// A builder whose root protocol is `P`.
    pub fn new_with_root<P: Packet>() -> (r: Self)
        requires
            P::spec_parent_tag() is None,
        ensures
            r@.root == Some(PendingProtocol::spec_of::<P>()),
            r@.protocols == Seq::<PendingView>::empty(),
    {
        let r = ProtocolRegistryBuilder { root: Some(PendingProtocol::of::<P>()), protocols: Vec::new() };
        assert(r@.protocols =~= Seq::<PendingView>::empty());
        r
    }

    /// Puts `P` first among the protocols added so far.
    pub fn root<P: Packet>(&mut self) -> (r: &mut Self)
        requires
            P::spec_parent_tag() is None,
        ensures
            (*r)@.root == old(self)@.root,
            (*r)@.protocols == seq![PendingProtocol::spec_of::<P>()] + old(self)@.protocols,
            *final(self) == *final(r),
    {
        proof {
            use_type_invariant(&*self);
        }
        let p = PendingProtocol::of::<P>();
        let mut protocols = Vec::new();
        std::mem::swap(&mut protocols, &mut self.protocols);
        protocols.insert(0, p);
        self.protocols = protocols;
        proof {
            assert(self@.protocols =~= seq![PendingProtocol::spec_of::<P>()] + old(self)@.protocols);
        }
        self
    }

    /// Adds `P` after the protocols added so far.
    pub fn register<P: Packet>(&mut self) -> (r: &mut Self)
        requires
            P::spec_parent_tag() is Some,
        ensures
            (*r)@.root == old(self)@.root,
            (*r)@.protocols == old(self)@.protocols.push(PendingProtocol::spec_of::<P>()),
            *final(self) == *final(r),
    {
        proof {
            use_type_invariant(&*self);
        }
        let p = PendingProtocol::of::<P>();
        let mut protocols = Vec::new();
        std::mem::swap(&mut protocols, &mut self.protocols);
        protocols.push(p);
        self.protocols = protocols;
        proof {
            assert(self@.protocols =~= old(self)@.protocols.push(PendingProtocol::spec_of::<P>()));
        }
        self
    }

    /// Checks the protocols and links them into a registry.
    ///
    /// A builder holding more than `u16::MAX` added protocols is refused
    /// unchanged. Otherwise the root given to `new_with_root`, if any, is
    /// first put in front of the added protocols (and stays there for any
    /// later call). A protocol added again, with the same tag, parent,
    /// selector and layout as one before it, counts once, as
    /// [`distinct_entries`] says; the result is what [`spec_build`] says of
    /// the protocols that remain.
    pub fn build(&mut self) -> (r: Result<ProtocolRegistry, RegistryError>)
        ensures
            old(self)@.protocols.len() > 65535 ==> {
                &&& final(self)@ == old(self)@
                &&& r matches Err(e) && e@ == RegistryErrorView::TooManyProtocols { max: 65535 }
            },
            old(self)@.protocols.len() <= 65535 ==> {
                &&& final(self)@.root == old(self)@.root
                &&& final(self)@.protocols == prepared(old(self)@)
                &&& match spec_build(distinct_entries(prepared(old(self)@))) {
                    Ok(m) => r matches Ok(reg) && reg@ == m && reg.formats() == spec_formats(
                        distinct_entries(prepared(old(self)@)),
                    ) && route_layout(m.protocols, reg.route_table(), reg.route_ranges()),
                    Err(e) => r matches Err(x) && x@ == e,
                }
            },
    {
        proof {
            use_type_invariant(&*self);
        }
        if self.protocols.len() > 65535 {
            return Err(RegistryError::TooManyProtocols { max: 65535 });
        }
        let mut protocols = Vec::new();
        std::mem::swap(&mut protocols, &mut self.protocols);
        match &self.root {
            Some(root) => {
                let first = root.duplicate();
                protocols.insert(0, first);
            },
            None => {},
        }
        self.protocols = protocols;
        proof {
            assert(views_of(self.protocols@) =~= prepared(old(self)@));
            assert(self@.protocols =~= prepared(old(self)@));
        }
        let kept = distinct_protocols(&self.protocols);
        link(&kept)
    }

    /// Ethernet as root, with IPv4, IPv6 and ARP under it and ICMP, OSPF,
    /// TCP and UDP under IPv4, after the protocols added so far.
    pub fn defaults(&mut self) -> (r: &mut Self)
        ensures
            (*r)@.root == old(self)@.root,
            (*r)@.protocols == seq![PendingProtocol::spec_of::<EthernetFrame>()] + old(self)@.protocols
                + seq![
                    PendingProtocol::spec_of::<IPv4Frame>(),
                    PendingProtocol::spec_of::<IPv6Frame>(),
                    PendingProtocol::spec_of::<ARPFrame>(),
                    PendingProtocol::spec_of::<ICMPFrame>(),
                    PendingProtocol::spec_of::<OSPFFrame>(),
                    PendingProtocol::spec_of::<TCPFrame>(),
                    PendingProtocol::spec_of::<UDPFrame>(),
                ],
            *final(self) == *final(r),
    {
        let r = self.root::<EthernetFrame>()
            .register::<IPv4Frame>()
            .register::<IPv6Frame>()
            .register::<ARPFrame>()
            .register::<ICMPFrame>()
            .register::<OSPFFrame>()
            .register::<TCPFrame>()
            .register::<UDPFrame>();
        proof {
            assert((*r)@.protocols =~= seq![PendingProtocol::spec_of::<EthernetFrame>()] + old(self)@.protocols
                + seq![
                    PendingProtocol::spec_of::<IPv4Frame>(),
                    PendingProtocol::spec_of::<IPv6Frame>(),
                    PendingProtocol::spec_of::<ARPFrame>(),
                    PendingProtocol::spec_of::<ICMPFrame>(),
                    PendingProtocol::spec_of::<OSPFFrame>(),
                    PendingProtocol::spec_of::<TCPFrame>(),
                    PendingProtocol::spec_of::<UDPFrame>(),
                ]);
        }
        r
    }
}


/// Why a builder's protocols cannot form a registry.
#[derive(Debug)]
pub enum RegistryError {
    /// More protocols than a [`ProtocolId`] can number.
    TooManyProtocols { max: usize },
    /// Two protocols have the same type tag; names the later one.
    DuplicateProtocol(String),
    /// A protocol's parent tag belongs to no registered protocol; names it.
    MissingParent(String),
    /// No protocol lacks a parent.
    MissingRoot,
    /// More than one protocol lacks a parent.
    MultipleRoots,
    /// Two children of one parent share a selector.
    DuplicateRoute { parent: ProtocolId, selector: ProtocolKey },
}

/// A registry error as a value.
pub enum RegistryErrorView {
    TooManyProtocols { max: nat },
    DuplicateProtocol(Seq<char>),
    MissingParent(Seq<char>),
    MissingRoot,
    MultipleRoots,
    DuplicateRoute { parent: nat, selector: u32 },
}

impl View for RegistryError {
    type V = RegistryErrorView;

    closed spec fn view(&self) -> RegistryErrorView {
        match self {
            RegistryError::TooManyProtocols { max } => RegistryErrorView::TooManyProtocols { max: *max as nat },
            RegistryError::DuplicateProtocol(n) => RegistryErrorView::DuplicateProtocol(n@),
            RegistryError::MissingParent(n) => RegistryErrorView::MissingParent(n@),
            RegistryError::MissingRoot => RegistryErrorView::MissingRoot,
            RegistryError::MultipleRoots => RegistryErrorView::MultipleRoots,
            RegistryError::DuplicateRoute { parent, selector } => RegistryErrorView::DuplicateRoute {
                parent: parent.0 as nat,
                selector: selector.0,
            },
        }
    }
}

/// `c` is registered under the protocol at `p` with selector `sel`.
pub open spec fn is_child(ps: Seq<ProtocolEntry>, p: int, c: int, sel: u32) -> bool {
    &&& 0 <= p < ps.len()
    &&& 0 <= c < ps.len()
    &&& ps[c].parent == Some(ps[p].tag)
    &&& ps[c].selector == sel
}

/// Some protocol of `ps` has tag `t`.
pub open spec fn has_tag(ps: Seq<ProtocolEntry>, t: u32) -> bool {
    exists|k: int| 0 <= k < ps.len() && (#[trigger] ps[k]).tag == t
}

/// A registry as a value: the index of its root and its protocols, in
/// the order of their ids.
pub struct RegistryModel {
    pub root: nat,
    pub protocols: Seq<ProtocolEntry>,
}

impl RegistryModel {
    /// What every registry satisfies: tags are unique, there is exactly one
    /// root, every parent is registered, no parent has two children with one
    /// selector, and every layout is well formed.
    #[verifier::opaque]
    pub open spec fn wf(self) -> bool {
        let ps = self.protocols;
        &&& ps.len() <= 65536
        &&& forall|i: int, j: int| 0 <= i < j < ps.len() ==> (#[trigger] ps[i]).tag != (#[trigger] ps[j]).tag
        &&& self.root < ps.len()
        &&& ps[self.root as int].parent is None
        &&& forall|i: int| 0 <= i < ps.len() && (#[trigger] ps[i]).parent is None ==> i == self.root
        &&& forall|i: int| 0 <= i < ps.len() ==> ((#[trigger] ps[i]).parent matches Some(t) ==> has_tag(ps, t))
        &&& forall|i: int, j: int|
            0 <= i < j < ps.len() && (#[trigger] ps[i]).parent is Some && ps[i].parent == (#[trigger] ps[j]).parent
                ==> ps[i].selector != ps[j].selector
        &&& forall|i: int| 0 <= i < ps.len() ==> (#[trigger] ps[i]).layout.wf()
    }

    /// The child that `sel` leads to under the protocol at `p`, if any.
    pub open spec fn resolve(self, p: int, sel: u32) -> Option<int> {
        if exists|c: int| is_child(self.protocols, p, c, sel) {
            Some(choose|c: int| is_child(self.protocols, p, c, sel))
        } else {
            None
        }
    }
}

/// One edge of the routing table: `selector` leads to `child`.
#[derive(Debug, Clone, Copy)]
pub struct Route {
    pub selector: ProtocolKey,
    pub child: ProtocolId,
}

/// A registered protocol and the range of its routes.
#[derive(Debug, Clone, Copy)]
pub struct ProtocolDescriptor {
    pub entry: ProtocolEntry,
    pub route_start: usize,
    pub route_len: usize,
}

/// The protocols of a registry, numbered by [`ProtocolId`], with the routes
/// from each protocol to its children.
#[derive(Debug)]
pub struct ProtocolRegistry {
    root: ProtocolId,
    protocols: Vec<ProtocolDescriptor>,
    routes: Vec<Route>,
    formats: Vec<FrameFormat>,
}

impl View for ProtocolRegistry {
    type V = RegistryModel;

    closed spec fn view(&self) -> RegistryModel {
        RegistryModel {
            root: self.root.0 as nat,
            protocols: self.protocols@.map_values(|d: ProtocolDescriptor| d.entry),
        }
    }
}

/// The routes in `routes[start..end]` are exactly the children of the
/// protocol at `p`, in strictly increasing order of selector.
spec fn routes_of(ps: Seq<ProtocolEntry>, p: int, routes: Seq<Route>, start: int, end: int) -> bool {
    &&& 0 <= start <= end <= routes.len()
    &&& forall|k: int|
        start <= k < end ==> is_child(ps, p, (#[trigger] routes[k]).child.0 as int, routes[k].selector.0)
    &&& forall|k1: int, k2: int|
        start <= k1 < k2 < end ==> (#[trigger] routes[k1]).selector.0 < (#[trigger] routes[k2]).selector.0
    &&& forall|c: int|
        0 <= c < ps.len() && ps[c].parent == Some(ps[p].tag) ==> exists|k: int|
            start <= k < end && (#[trigger] routes[k]).child.0 == c
}

/// The routes of `ranges[p]` as a range of positions in a table.
pub open spec fn in_range(ranges: Seq<(nat, nat)>, p: int, k: int) -> bool {
    ranges[p].0 <= k < ranges[p].0 + ranges[p].1
}

/// The routing table `table` (each route's selector and child id) with
/// each protocol's range `ranges` (start and length) is laid out for the
/// protocols `ps`: the ranges follow one another in id order from the start
/// of the table to its end; the table holds one route for each protocol
/// but the root; a protocol's range holds exactly its children, each with
/// its selector, in strictly increasing order of selector.
pub open spec fn route_layout(ps: Seq<ProtocolEntry>, table: Seq<(u32, nat)>, ranges: Seq<(nat, nat)>) -> bool {
    &&& ranges.len() == ps.len()
    &&& ps.len() > 0
    &&& ranges[0].0 == 0
    &&& forall|i: int| 0 < i < ranges.len() ==> (#[trigger] ranges[i]).0 == ranges[i - 1].0 + ranges[i - 1].1
    &&& ranges.last().0 + ranges.last().1 == table.len()
    &&& table.len() + 1 == ps.len()
    &&& forall|p: int, k: int|
        #![trigger in_range(ranges, p, k)]
        0 <= p < ps.len() && in_range(ranges, p, k) ==> is_child(ps, p, table[k].1 as int, table[k].0)
    &&& forall|p: int, k1: int, k2: int|
        #![trigger in_range(ranges, p, k1), in_range(ranges, p, k2)]
        0 <= p < ps.len() && in_range(ranges, p, k1) && in_range(ranges, p, k2) && k1 < k2 ==> table[k1].0
            < table[k2].0
    &&& forall|p: int, c: int|
        0 <= p < ps.len() && 0 <= c < ps.len() && (#[trigger] ps[c]).parent == Some((#[trigger] ps[p]).tag)
            ==> exists|k: int| in_range(ranges, p, k) && (#[trigger] table[k]).1 == c
}

/// A table of routes as values: each route's selector and child id.
pub open spec fn table_of(routes: Seq<Route>) -> Seq<(u32, nat)> {
    routes.map_values(|r: Route| (r.selector.spec_get(), r.child.0 as nat))
}

/// The route ranges of descriptors as values.
pub open spec fn ranges_of(ds: Seq<ProtocolDescriptor>) -> Seq<(nat, nat)> {
    ds.map_values(|d: ProtocolDescriptor| (d.route_start as nat, d.route_len as nat))
}

/// Each position before the end of range `p` lies in range `p` or an earlier one.
proof fn lemma_ranges_cover(ranges: Seq<(nat, nat)>, p: int, k: int)
    requires
        0 <= p < ranges.len(),
        ranges[0].0 == 0,
        forall|i: int| 0 < i < ranges.len() ==> (#[trigger] ranges[i]).0 == ranges[i - 1].0 + ranges[i - 1].1,
        0 <= k < ranges[p].0 + ranges[p].1,
    ensures
        exists|q: int| 0 <= q <= p && in_range(ranges, q, k),
    decreases p,
{
    if k < ranges[p].0 {
        assert(p > 0);
        assert(ranges[p].0 == ranges[p - 1].0 + ranges[p - 1].1);
        lemma_ranges_cover(ranges, p - 1, k);
    } else {
        assert(in_range(ranges, p, k));
    }
}

/// A table whose ranges follow one another and hold exactly each
/// protocol's children has one route for each protocol but the root.
proof fn lemma_route_count(es: Seq<ProtocolEntry>, root: nat, table: Seq<(u32, nat)>, ranges: Seq<(nat, nat)>)
    requires
        (RegistryModel { root, protocols: es }).wf(),
        ranges.len() == es.len(),
        ranges[0].0 == 0,
        forall|i: int| 0 < i < ranges.len() ==> (#[trigger] ranges[i]).0 == ranges[i - 1].0 + ranges[i - 1].1,
        ranges.last().0 + ranges.last().1 == table.len(),
        forall|p: int, k: int|
            #![trigger in_range(ranges, p, k)]
            0 <= p < es.len() && in_range(ranges, p, k) ==> is_child(es, p, table[k].1 as int, table[k].0),
        forall|p: int, k1: int, k2: int|
            #![trigger in_range(ranges, p, k1), in_range(ranges, p, k2)]
            0 <= p < es.len() && in_range(ranges, p, k1) && in_range(ranges, p, k2) && k1 < k2 ==> table[k1].0
                < table[k2].0,
        forall|p: int, c: int|
            0 <= p < es.len() && 0 <= c < es.len() && (#[trigger] es[c]).parent == Some((#[trigger] es[p]).tag)
                ==> exists|k: int| in_range(ranges, p, k) && (#[trigger] table[k]).1 == c,
    ensures
        table.len() + 1 == es.len(),
{
    reveal(RegistryModel::wf);
    let n = es.len() as int;
    let m = table.len() as int;
    let cs = Seq::new(table.len(), |k: int| table[k].1 as int);
    assert forall|k1: int, k2: int| 0 <= k1 < m && 0 <= k2 < m && k1 != k2 implies cs[k1] != cs[k2] by {
        lemma_ranges_cover(ranges, n - 1, k1);
        lemma_ranges_cover(ranges, n - 1, k2);
        let q1 = choose|q: int| 0 <= q <= n - 1 && in_range(ranges, q, k1);
        let q2 = choose|q: int| 0 <= q <= n - 1 && in_range(ranges, q, k2);
        assert(is_child(es, q1, table[k1].1 as int, table[k1].0));
        assert(is_child(es, q2, table[k2].1 as int, table[k2].0));
        if cs[k1] == cs[k2] {
            let c = cs[k1];
            assert(es[q1].tag == es[q2].tag);
            if q1 != q2 {
                if q1 < q2 {
                    assert(es[q1].tag != es[q2].tag);
                } else {
                    assert(es[q2].tag != es[q1].tag);
                }
            }
            assert(table[k1].0 == es[c].selector);
            assert(table[k2].0 == es[c].selector);
            if k1 < k2 {
                assert(table[k1].0 < table[k2].0);
            } else {
                assert(table[k2].0 < table[k1].0);
            }
        }
    }
    assert(cs.no_duplicates());
    cs.unique_seq_to_set();
    let s = Set::new(|c: int| 0 <= c < n && es[c].parent is Some);
    assert forall|c: int| cs.to_set().contains(c) <==> s.contains(c) by {
        if cs.to_set().contains(c) {
            let k = choose|k: int| 0 <= k < cs.len() && cs[k] == c;
            lemma_ranges_cover(ranges, n - 1, k);
            let q = choose|q: int| 0 <= q <= n - 1 && in_range(ranges, q, k);
            assert(is_child(es, q, table[k].1 as int, table[k].0));
        }
        if s.contains(c) {
            let t = es[c].parent->Some_0;
            assert(has_tag(es, t));
            let p = choose|p: int| 0 <= p < es.len() && (#[trigger] es[p]).tag == t;
            assert(es[c].parent == Some(es[p].tag));
            let k = choose|k: int| in_range(ranges, p, k) && (#[trigger] table[k]).1 == c;
            lemma_ranges_monotone(ranges, p, n - 1);
            assert(0 <= k < m);
            assert(cs[k] == c);
        }
    }
    assert(cs.to_set() =~= s);
    let r = vstd::set_lib::set_int_range(0, n);
    vstd::set_lib::lemma_int_range(0, n);
    assert(s =~= r.remove(root as int));
}

/// Ranges that follow one another end no earlier for a later protocol.
proof fn lemma_ranges_monotone(ranges: Seq<(nat, nat)>, p: int, q: int)
    requires
        0 <= p <= q < ranges.len(),
        forall|i: int| 0 < i < ranges.len() ==> (#[trigger] ranges[i]).0 == ranges[i - 1].0 + ranges[i - 1].1,
    ensures
        ranges[p].0 + ranges[p].1 <= ranges[q].0 + ranges[q].1,
    decreases q - p,
{
    if p < q {
        lemma_ranges_monotone(ranges, p, q - 1);
        assert(ranges[q].0 == ranges[q - 1].0 + ranges[q - 1].1);
    }
}

impl ProtocolRegistry {
    /// The routing table agrees with the protocols, and the protocols form
    /// a well-formed registry.
    #[verifier::type_invariant]
    closed spec fn inv(self) -> bool {
        &&& self@.wf()
        &&& route_layout(self@.protocols, self.route_table(), self.route_ranges())
        &&& self.formats@.len() == self.protocols@.len()
        &&& forall|p: int|
            0 <= p < self.formats@.len() ==> fields_fit(
                (#[trigger] self.formats@[p])@.fields,
                self.protocols@[p].entry.layout.size as nat,
            )
        &&& forall|p: int|
            0 <= p < self.protocols@.len() ==> routes_of(
                self@.protocols,
                p,
                self.routes@,
                (#[trigger] self.protocols@[p]).route_start as int,
                self.protocols@[p].route_start + self.protocols@[p].route_len,
            )
    }

    /// The routing table: each route's selector and the id of the child it
    /// leads to.
    pub closed spec fn route_table(&self) -> Seq<(u32, nat)> {
        table_of(self.routes@)
    }

    /// Where each protocol's routes start in the routing table and how many
    /// there are, in the order of the protocols' ids.
    pub closed spec fn route_ranges(&self) -> Seq<(nat, nat)> {
        ranges_of(self.protocols@)
    }

    /// The name and text fields of each protocol, in the order of their ids.
    pub closed spec fn formats(&self) -> Seq<FrameFormatView> {
        self.formats@.map_values(|f: FrameFormat| f@)
    }

    /// The name and text fields of protocol `id`, if the registry has it;
    /// the fields fit in the protocol's header.
    pub fn format(&self, id: ProtocolId) -> (r: Option<&FrameFormat>)
        ensures
            id.0 < self@.protocols.len() ==> (r matches Some(f) && f@ == self.formats()[id.0 as int]),
            id.0 >= self@.protocols.len() ==> r is None,
            r matches Some(f) ==> fields_fit(f@.fields, self@.protocols[id.0 as int].layout.size as nat),
            self.formats().len() == self@.protocols.len(),
    {
        proof {
            use_type_invariant(self);
        }
        let i = id.index();
        if i < self.formats.len() {
            Some(&self.formats[i])
        } else {
            None
        }
    }

    /// An empty builder.
    pub fn builder() -> (r: ProtocolRegistryBuilder)
        ensures
            r@.root is None,
            r@.protocols == Seq::<PendingView>::empty(),
    {
        ProtocolRegistryBuilder::new()
    }

    /// The id of the root protocol.
    pub fn root(&self) -> (r: ProtocolId)
        ensures
            r.0 == self@.root,
            self@.wf(),
    {
        proof {
            use_type_invariant(self);
        }
        self.root
    }

    /// The number of registered protocols.
    pub fn len(&self) -> (r: usize)
        ensures
            r == self@.protocols.len(),
            self@.wf(),
            route_layout(self@.protocols, self.route_table(), self.route_ranges()),
    {
        proof {
            use_type_invariant(self);
        }
        self.protocols.len()
    }

    /// The entry of protocol `id`, if the registry has one.
    pub fn protocol(&self, id: ProtocolId) -> (r: Option<&ProtocolEntry>)
        ensures
            id.0 < self@.protocols.len() ==> r == Some(&self@.protocols[id.0 as int]),
            id.0 >= self@.protocols.len() ==> r is None,
            self@.wf(),
    {
        proof {
            use_type_invariant(self);
        }
        let i = id.index();
        if i < self.protocols.len() {
            Some(&self.protocols[i].entry)
        } else {
            None
        }
    }

    /// The child protocol that `selector` leads to under `parent`, if any.
    pub fn resolve(&self, parent: ProtocolId, selector: ProtocolKey) -> (r: Option<ProtocolId>)
        ensures
            r matches Some(c) ==> self@.resolve(parent.0 as int, selector.spec_get()) == Some(c.0 as int),
            r is None ==> self@.resolve(parent.0 as int, selector.spec_get()) is None,
    {
        proof {
            use_type_invariant(self);
        }
        let p = parent.index();
        if p >= self.protocols.len() {
            return None;
        }
        let ghost ps = self@.protocols;
        let ghost sel = selector.spec_get();
        proof {
            let d = self.protocols@[p as int];
            assert(routes_of(ps, p as int, self.routes@, d.route_start as int, d.route_start + d.route_len));
            assert(self.routes@.len() == self.routes.len());
        }
        let start = self.protocols[p].route_start;
        let end = start + self.protocols[p].route_len;
        let mut k = start;
        while k < end
            invariant
                start <= k <= end,
                end <= self.routes@.len(),
                routes_of(ps, p as int, self.routes@, start as int, end as int),
                forall|k2: int| start <= k2 < k ==> (#[trigger] self.routes@[k2]).selector.0 != sel,
                sel == selector.spec_get(),
                p == parent.0,
                ps == self@.protocols,
                self@.wf(),
            decreases end - k,
        {
            if self.routes[k].selector == selector {
                let c = self.routes[k].child;
                proof {
                    assert(is_child(ps, p as int, c.0 as int, sel));
                    lemma_resolve_child(self@, p as int, c.0 as int, sel);
                }
                return Some(c);
            }
            k = k + 1;
        }
        proof {
            if exists|c: int| is_child(ps, p as int, c, sel) {
                let c = choose|c: int| is_child(ps, p as int, c, sel);
                let k2 = choose|k2: int| start <= k2 < end && (#[trigger] self.routes@[k2]).child.0 == c;
                assert(is_child(ps, p as int, self.routes@[k2].child.0 as int, self.routes@[k2].selector.0));
                assert(false);
            }
        }
        None
    }
}

/// In a well-formed registry, a parent and a selector determine at most one child.
pub proof fn lemma_child_unique(m: RegistryModel, p: int, c1: int, c2: int, sel: u32)
    requires
        m.wf(),
        is_child(m.protocols, p, c1, sel),
        is_child(m.protocols, p, c2, sel),
    ensures
        c1 == c2,
{
    reveal(RegistryModel::wf);
    let ps = m.protocols;
    if c1 < c2 {
        assert(ps[c1].parent == ps[c2].parent);
    } else if c2 < c1 {
        assert(ps[c2].parent == ps[c1].parent);
    }
}

/// In a well-formed registry, the child registered under `p` with `sel` is
/// what `sel` resolves to under `p`.
pub proof fn lemma_resolve_child(m: RegistryModel, p: int, c: int, sel: u32)
    requires
        m.wf(),
        is_child(m.protocols, p, c, sel),
    ensures
        m.resolve(p, sel) == Some(c),
{
    let c2 = choose|c2: int| is_child(m.protocols, p, c2, sel);
    lemma_child_unique(m, p, c, c2, sel);
}


/// The entries of a sequence of pending protocols.
pub open spec fn entries_of(ps: Seq<PendingView>) -> Seq<ProtocolEntry> {
    ps.map_values(|p: PendingView| p.entry)
}

/// The protocols a builder links: the root given to `new_with_root`, if
/// any, followed by the protocols added to the builder.
pub open spec fn prepared(b: BuilderView) -> Seq<PendingView> {
    match b.root {
        Some(r) => seq![r] + b.protocols,
        None => b.protocols,
    }
}

/// Some protocol before position `i` has the same entry as the one at `i`.
pub open spec fn entry_before(ps: Seq<PendingView>, i: int) -> bool {
    exists|j: int| 0 <= j < i && (#[trigger] ps[j]).entry == ps[i].entry
}

/// `ps` without the protocols whose entry (tag, parent, selector and
/// layout) repeats that of an earlier one: the first of each stays, in order.
pub open spec fn distinct_entries(ps: Seq<PendingView>) -> Seq<PendingView>
    decreases ps.len(),
{
    if ps.len() == 0 {
        Seq::empty()
    } else {
        let r = distinct_entries(ps.drop_last());
        if entry_before(ps, ps.len() - 1) {
            r
        } else {
            r.push(ps.last())
        }
    }
}

/// The protocols of `ps` without those that repeat the entry of an earlier one.
fn distinct_protocols(ps: &Vec<PendingProtocol>) -> (r: Vec<PendingProtocol>)
    requires
        forall|i: int| 0 <= i < ps@.len() ==> pending_wf((#[trigger] ps@[i])@),
    ensures
        views_of(r@) == distinct_entries(views_of(ps@)),
        r@.len() <= ps@.len(),
        forall|i: int| 0 <= i < r@.len() ==> pending_wf((#[trigger] r@[i])@),
{
    let ghost vs = views_of(ps@);
    let mut out: Vec<PendingProtocol> = Vec::new();
    let mut i: usize = 0;
    while i < ps.len()
        invariant
            0 <= i <= ps@.len(),
            vs == views_of(ps@),
            forall|k: int| 0 <= k < ps@.len() ==> pending_wf((#[trigger] ps@[k])@),
            views_of(out@) == distinct_entries(vs.take(i as int)),
            out@.len() <= i,
            forall|k: int| 0 <= k < out@.len() ==> pending_wf((#[trigger] out@[k])@),
        decreases ps@.len() - i,
    {
        let mut seen = false;
        let mut j: usize = 0;
        while j < i && !seen
            invariant
                0 <= j <= i < ps@.len(),
                vs == views_of(ps@),
                seen ==> entry_before(vs, i as int),
                !seen ==> forall|x: int| 0 <= x < j ==> (#[trigger] vs[x]).entry != vs[i as int].entry,
            decreases i - j,
        {
            if ps[j].entry == ps[i].entry {
                proof {
                    assert(vs[j as int].entry == vs[i as int].entry);
                }
                seen = true;
            }
            j = j + 1;
        }
        let ghost t = vs.take(i + 1);
        proof {
            assert(t.drop_last() =~= vs.take(i as int));
            assert(t.last() == vs[i as int]);
            assert(entry_before(t, i as int) == entry_before(vs, i as int)) by {
                if entry_before(vs, i as int) {
                    let x = choose|x: int| 0 <= x < i && (#[trigger] vs[x]).entry == vs[i as int].entry;
                    assert(t[x] == vs[x]);
                }
                if entry_before(t, i as int) {
                    let x = choose|x: int| 0 <= x < i && (#[trigger] t[x]).entry == t[i as int].entry;
                    assert(t[x] == vs[x]);
                }
            }
        }
        if !seen {
            let d = ps[i].duplicate();
            let ghost before = out@;
            out.push(d);
            proof {
                assert(pending_wf(ps@[i as int]@));
                assert(views_of(out@) =~= views_of(before).push(vs[i as int]));
            }
        }
        i = i + 1;
    }
    proof {
        assert(vs.take(i as int) =~= vs);
    }
    out
}

/// Some protocol before position `i` has the tag of the protocol at `i`.
pub open spec fn dup_before(ps: Seq<PendingView>, i: int) -> bool {
    exists|j: int| 0 <= j < i && (#[trigger] ps[j]).entry.tag == ps[i].entry.tag
}

/// The first position at or after `i` whose tag repeats an earlier one.
pub open spec fn first_dup_from(ps: Seq<PendingView>, i: int) -> Option<int>
    decreases ps.len() - i,
{
    if i < 0 || i >= ps.len() {
        None
    } else if dup_before(ps, i) {
        Some(i)
    } else {
        first_dup_from(ps, i + 1)
    }
}

/// The index of a protocol with tag `t`.
pub open spec fn index_of_tag(es: Seq<ProtocolEntry>, t: u32) -> int {
    choose|k: int| 0 <= k < es.len() && (#[trigger] es[k]).tag == t
}

/// What is wrong with linking the protocol at `i`, given those before it:
/// a second root, a parent that is not registered, or a selector that an
/// earlier sibling already uses.
pub open spec fn route_error_at(ps: Seq<PendingView>, i: int) -> Option<RegistryErrorView> {
    let es = entries_of(ps);
    match ps[i].entry.parent {
        None => if exists|j: int| 0 <= j < i && (#[trigger] ps[j]).entry.parent is None {
            Some(RegistryErrorView::MultipleRoots)
        } else {
            None
        },
        Some(t) => if !has_tag(es, t) {
            Some(RegistryErrorView::MissingParent(ps[i].name))
        } else if exists|j: int|
            0 <= j < i && (#[trigger] ps[j]).entry.parent == Some(t) && ps[j].entry.selector
                == ps[i].entry.selector {
            Some(
                RegistryErrorView::DuplicateRoute {
                    parent: index_of_tag(es, t) as nat,
                    selector: ps[i].entry.selector,
                },
            )
        } else {
            None
        },
    }
}

/// The first linking error at or after position `i`.
pub open spec fn first_route_error_from(ps: Seq<PendingView>, i: int) -> Option<RegistryErrorView>
    decreases ps.len() - i,
{
    if i < 0 || i >= ps.len() {
        None
    } else if route_error_at(ps, i) is Some {
        route_error_at(ps, i)
    } else {
        first_route_error_from(ps, i + 1)
    }
}

/// The registry that `ps` links into, or the error that stops it: first a
/// repeated tag, then the first protocol that cannot be linked, then the
/// lack of a root. Protocol `i` of `ps` gets id `i`.
pub open spec fn spec_build(ps: Seq<PendingView>) -> Result<RegistryModel, RegistryErrorView> {
    let es = entries_of(ps);
    match first_dup_from(ps, 0) {
        Some(i) => Err(RegistryErrorView::DuplicateProtocol(ps[i].name)),
        None => match first_route_error_from(ps, 0) {
            Some(e) => Err(e),
            None => if exists|i: int| 0 <= i < es.len() && (#[trigger] es[i]).parent is None {
                Ok(
                    RegistryModel {
                        root: (choose|i: int| 0 <= i < es.len() && (#[trigger] es[i]).parent is None) as nat,
                        protocols: es,
                    },
                )
            } else {
                Err(RegistryErrorView::MissingRoot)
            },
        },
    }
}

/// A run of positions with no repeated tag does not change where the first
/// repeat is.
proof fn lemma_first_dup_skip(ps: Seq<PendingView>, a: int, b: int)
    requires
        0 <= a <= b <= ps.len(),
        forall|x: int| a <= x < b ==> !dup_before(ps, x),
    ensures
        first_dup_from(ps, a) == first_dup_from(ps, b),
    decreases b - a,
{
    if a < b {
        lemma_first_dup_skip(ps, a + 1, b);
    }
}

/// A run of positions that link without error does not change where the
/// first linking error is.
proof fn lemma_first_route_error_skip(ps: Seq<PendingView>, a: int, b: int)
    requires
        0 <= a <= b <= ps.len(),
        forall|x: int| a <= x < b ==> route_error_at(ps, x) is None,
    ensures
        first_route_error_from(ps, a) == first_route_error_from(ps, b),
    decreases b - a,
{
    if a < b {
        lemma_first_route_error_skip(ps, a + 1, b);
    }
}

/// No repeat from `a` on means no position from `a` on repeats a tag.
proof fn lemma_no_dup_from(ps: Seq<PendingView>, a: int)
    requires
        0 <= a,
        first_dup_from(ps, a) is None,
    ensures
        forall|x: int| a <= x < ps.len() ==> !dup_before(ps, x),
    decreases ps.len() - a,
{
    if a < ps.len() {
        lemma_no_dup_from(ps, a + 1);
    }
}

/// No linking error from `a` on means every position from `a` on links.
proof fn lemma_no_route_error_from(ps: Seq<PendingView>, a: int)
    requires
        0 <= a,
        first_route_error_from(ps, a) is None,
    ensures
        forall|x: int| a <= x < ps.len() ==> route_error_at(ps, x) is None,
    decreases ps.len() - a,
{
    if a < ps.len() {
        lemma_no_route_error_from(ps, a + 1);
    }
}

/// A registry that `spec_build` produces is well formed, given well-formed layouts.
pub proof fn lemma_spec_build_wf(ps: Seq<PendingView>)
    requires
        ps.len() <= 65536,
        forall|i: int| 0 <= i < ps.len() ==> (#[trigger] ps[i]).entry.layout.wf(),
        first_dup_from(ps, 0) is None,
        first_route_error_from(ps, 0) is None,
    ensures
        spec_build(ps) matches Ok(m) ==> m.wf(),
{
    let es = entries_of(ps);
    lemma_no_dup_from(ps, 0);
    lemma_no_route_error_from(ps, 0);
    if let Ok(m) = spec_build(ps) {
        reveal(RegistryModel::wf);
        assert forall|i: int, j: int| 0 <= i < j < es.len() implies (#[trigger] es[i]).tag != (
        #[trigger] es[j]).tag by {
            assert(!dup_before(ps, j));
            assert(ps[i].entry == es[i]);
        }
        let r = m.root as int;
        assert forall|i: int| 0 <= i < es.len() && (#[trigger] es[i]).parent is None implies i == r by {
            if i < r {
                assert(route_error_at(ps, r) is None);
                assert(ps[i].entry == es[i]);
            } else if r < i {
                assert(route_error_at(ps, i) is None);
                assert(ps[r].entry == es[r]);
            }
        }
        assert forall|i: int| 0 <= i < es.len() implies ((#[trigger] es[i]).parent matches Some(t) ==> has_tag(
            es,
            t,
        )) by {
            assert(route_error_at(ps, i) is None);
        }
        assert forall|i: int, j: int|
            0 <= i < j < es.len() && (#[trigger] es[i]).parent is Some && es[i].parent == (
            #[trigger] es[j]).parent implies es[i].selector != es[j].selector by {
            assert(route_error_at(ps, j) is None);
            assert(ps[i].entry == es[i]);
        }
        assert forall|i: int| 0 <= i < es.len() implies (#[trigger] es[i]).layout.wf() by {
            assert(ps[i].entry == es[i]);
        }
    }
}


/// The children of the protocol at `p`, as routes in strictly increasing
/// order of selector.
fn sorted_children(ps: &Vec<PendingProtocol>, p: usize, Ghost(es): Ghost<Seq<ProtocolEntry>>) -> (r: Vec<Route>)
    requires
        p < ps.len(),
        ps.len() <= 65536,
        es.len() == ps@.len(),
        forall|k: int| 0 <= k < es.len() ==> es[k] == (#[trigger] ps@[k]).entry,
        forall|i: int, j: int|
            0 <= i < j < es.len() && (#[trigger] es[i]).parent is Some && es[i].parent == (#[trigger] es[j]).parent
                ==> es[i].selector != es[j].selector,
    ensures
        routes_of(es, p as int, r@, 0, r@.len() as int),
{
    let n = ps.len();
    let tag = ps[p].entry.tag;
    assert(tag == es[p as int].tag);
    let mut out: Vec<Route> = Vec::new();
    let mut c: usize = 0;
    while c < n
        invariant
            0 <= c <= n,
            n == es.len(),
            n <= 65536,
            p < n,
            tag == es[p as int].tag,
            es.len() == ps@.len(),
            forall|k: int| 0 <= k < es.len() ==> es[k] == (#[trigger] ps@[k]).entry,
            forall|i: int, j: int|
                0 <= i < j < es.len() && (#[trigger] es[i]).parent is Some && es[i].parent == (
                #[trigger] es[j]).parent ==> es[i].selector != es[j].selector,
            forall|k: int|
                0 <= k < out@.len() ==> is_child(es, p as int, (#[trigger] out@[k]).child.0 as int, out@[k].selector.0)
                    && out@[k].child.0 < c,
            forall|k1: int, k2: int|
                0 <= k1 < k2 < out@.len() ==> (#[trigger] out@[k1]).selector.0 < (#[trigger] out@[k2]).selector.0,
            forall|c2: int|
                0 <= c2 < c && es[c2].parent == Some(tag) ==> exists|k: int|
                    0 <= k < out@.len() && (#[trigger] out@[k]).child.0 == c2,
        decreases n - c,
    {
        let is_kid = match ps[c].entry.parent {
            Some(t) => t == tag,
            None => false,
        };
        if is_kid {
            let sel = ps[c].entry.selector;
            let mut q: usize = 0;
            while q < out.len() && out[q].selector.0 < sel
                invariant
                    0 <= q <= out@.len(),
                    forall|k: int| 0 <= k < q ==> (#[trigger] out@[k]).selector.0 < sel,
                decreases out@.len() - q,
            {
                q = q + 1;
            }
            let x = Route { selector: ProtocolKey(sel), child: ProtocolId(c as u16) };
            let ghost old_out = out@;
            proof {
                old_out.insert_ensures(q as int, x);
                assert forall|k: int| q <= k < old_out.len() implies (#[trigger] old_out[k]).selector.0 > sel by {
                    if q < old_out.len() {
                        assert(old_out[q as int].selector.0 >= sel);
                        if k > q {
                            assert(old_out[q as int].selector.0 < old_out[k].selector.0);
                        }
                        let ck = old_out[k].child.0 as int;
                        assert(is_child(es, p as int, ck, old_out[k].selector.0));
                        assert(ck < c);
                        assert(es[ck].parent == es[c as int].parent);
                    }
                }
            }
            out.insert(q, x);
            proof {
                let new_out = out@;
                assert(new_out == old_out.insert(q as int, x));
                assert(is_child(es, p as int, c as int, sel));
                assert forall|k: int|
                    0 <= k < new_out.len() implies is_child(
                    es,
                    p as int,
                    (#[trigger] new_out[k]).child.0 as int,
                    new_out[k].selector.0,
                ) && new_out[k].child.0 < c + 1 by {
                    if k < q {
                        assert(new_out[k] == old_out[k]);
                    } else if k > q {
                        assert(new_out[k] == old_out[k - 1]);
                    }
                }
                assert forall|k1: int, k2: int|
                    0 <= k1 < k2 < new_out.len() implies (#[trigger] new_out[k1]).selector.0 < (
                    #[trigger] new_out[k2]).selector.0 by {
                    if k2 < q {
                        assert(new_out[k1] == old_out[k1]);
                        assert(new_out[k2] == old_out[k2]);
                    } else if k2 == q {
                        assert(new_out[k1] == old_out[k1]);
                    } else if k1 < q {
                        assert(new_out[k1] == old_out[k1]);
                        assert(new_out[k2] == old_out[k2 - 1]);
                        assert(old_out[k1].selector.0 < sel);
                    } else if k1 == q {
                        assert(new_out[k2] == old_out[k2 - 1]);
                    } else {
                        assert(new_out[k1] == old_out[k1 - 1]);
                        assert(new_out[k2] == old_out[k2 - 1]);
                    }
                }
                assert forall|c2: int| 0 <= c2 < c + 1 && es[c2].parent == Some(tag) implies exists|k: int|
                    0 <= k < new_out.len() && (#[trigger] new_out[k]).child.0 == c2 by {
                    if c2 == c {
                        assert(new_out[q as int].child.0 == c2);
                    } else {
                        let k = choose|k: int| 0 <= k < old_out.len() && (#[trigger] old_out[k]).child.0 == c2;
                        if k < q {
                            assert(new_out[k] == old_out[k]);
                        } else {
                            assert(new_out[k + 1] == old_out[k]);
                        }
                    }
                }
            }
        } else {
            proof {
                assert forall|c2: int| 0 <= c2 < c + 1 && es[c2].parent == Some(tag) implies exists|k: int|
                    0 <= k < out@.len() && (#[trigger] out@[k]).child.0 == c2 by {
                    if c2 == c {
                        assert(ps@[c as int].entry == es[c2]);
                    }
                }
            }
        }
        c = c + 1;
    }
    out
}


/// The views of a sequence of pending protocols.
pub open spec fn views_of(ps: Seq<PendingProtocol>) -> Seq<PendingView> {
    ps.map_values(|p: PendingProtocol| p@)
}

/// The position of a protocol whose tag is `t`, if there is one.
fn find_tag(ps: &Vec<PendingProtocol>, t: u32) -> (r: Option<usize>)
    ensures
        r matches Some(k) ==> k < ps@.len() && ps@[k as int].entry.tag == t,
        r is None ==> !has_tag(entries_of(views_of(ps@)), t),
{
    let ghost es = entries_of(views_of(ps@));
    let mut k: usize = 0;
    while k < ps.len()
        invariant
            0 <= k <= ps@.len(),
            es == entries_of(views_of(ps@)),
            forall|y: int| 0 <= y < k ==> (#[trigger] ps@[y]).entry.tag != t,
        decreases ps@.len() - k,
    {
        if ps[k].entry.tag == t {
            return Some(k);
        }
        k = k + 1;
    }
    proof {
        assert forall|y: int| 0 <= y < es.len() implies (#[trigger] es[y]).tag != t by {
            assert(es[y] == ps@[y].entry);
        }
    }
    None
}

/// Appending to a routing table keeps the routes of a parent that it held.
proof fn lemma_routes_of_extend(es: Seq<ProtocolEntry>, p: int, a: Seq<Route>, b: Seq<Route>, s: int, e: int)
    requires
        routes_of(es, p, a, s, e),
    ensures
        routes_of(es, p, a + b, s, e),
{
    let ab = a + b;
    assert forall|k: int| s <= k < e implies (#[trigger] ab[k]) == a[k] by {}
    assert forall|c: int| 0 <= c < es.len() && es[c].parent == Some(es[p].tag) implies exists|k: int|
        s <= k < e && (#[trigger] ab[k]).child.0 == c by {
        let k = choose|k: int| s <= k < e && (#[trigger] a[k]).child.0 == c;
        assert(ab[k] == a[k]);
    }
}

/// The routes of a parent, appended to a table, are the parent's routes
/// in the appended range.
proof fn lemma_routes_of_shift(es: Seq<ProtocolEntry>, q: int, a: Seq<Route>, b: Seq<Route>)
    requires
        routes_of(es, q, b, 0, b.len() as int),
    ensures
        routes_of(es, q, a + b, a.len() as int, (a.len() + b.len()) as int),
{
    let ab = a + b;
    assert forall|k: int| 0 <= k < b.len() implies (#[trigger] ab[a.len() + k]) == b[k] by {}
    assert forall|k: int|
        a.len() <= k < a.len() + b.len() implies is_child(es, q, (#[trigger] ab[k]).child.0 as int, ab[k].selector.0) by {
        assert(ab[k] == b[k - a.len()]);
    }
    assert forall|k1: int, k2: int|
        a.len() <= k1 < k2 < a.len() + b.len() implies (#[trigger] ab[k1]).selector.0 < (#[trigger] ab[k2]).selector.0 by {
        assert(ab[k1] == b[k1 - a.len()]);
        assert(ab[k2] == b[k2 - a.len()]);
    }
    assert forall|c: int| 0 <= c < es.len() && es[c].parent == Some(es[q].tag) implies exists|k: int|
        a.len() <= k < a.len() + b.len() && (#[trigger] ab[k]).child.0 == c by {
        let k = choose|k: int| 0 <= k < b.len() && (#[trigger] b[k]).child.0 == c;
        assert(ab[a.len() + k] == b[k]);
    }
}

/// The name and fields of each pending protocol.
pub open spec fn spec_formats(ps: Seq<PendingView>) -> Seq<FrameFormatView> {
    ps.map_values(|p: PendingView| FrameFormatView { name: p.name, fields: p.fields })
}

/// Copies the name and fields of each pending protocol.
fn formats_of(ps: &Vec<PendingProtocol>) -> (r: Vec<FrameFormat>)
    requires
        forall|i: int| 0 <= i < ps@.len() ==> pending_wf((#[trigger] ps@[i])@),
    ensures
        r@.len() == ps@.len(),
        r@.map_values(|f: FrameFormat| f@) == spec_formats(views_of(ps@)),
        forall|i: int| 0 <= i < r@.len() ==> fields_fit((#[trigger] r@[i])@.fields, ps@[i].entry.layout.size as nat),
{
    let ghost want = spec_formats(views_of(ps@));
    let mut r: Vec<FrameFormat> = Vec::new();
    let mut i: usize = 0;
    while i < ps.len()
        invariant
            0 <= i <= ps@.len(),
            want == spec_formats(views_of(ps@)),
            forall|k: int| 0 <= k < ps@.len() ==> pending_wf((#[trigger] ps@[k])@),
            r@.len() == i,
            forall|k: int| 0 <= k < i ==> (#[trigger] r@[k])@ == want[k],
            forall|k: int| 0 <= k < i ==> fields_fit((#[trigger] r@[k])@.fields, ps@[k].entry.layout.size as nat),
        decreases ps@.len() - i,
    {
        let f = FrameFormat { name: ps[i].name.clone(), fields: copy_fields(&ps[i].fields) };
        proof {
            assert(pending_wf(ps@[i as int]@));
        }
        r.push(f);
        i = i + 1;
    }
    proof {
        assert(r@.map_values(|f: FrameFormat| f@) =~= want);
    }
    r
}

/// The routes and ranges that `link` builds are laid out as
/// [`route_layout`] says.
proof fn lemma_linked_layout(es: Seq<ProtocolEntry>, root: nat, routes: Seq<Route>, ds: Seq<ProtocolDescriptor>)
    requires
        (RegistryModel { root, protocols: es }).wf(),
        ds.len() == es.len(),
        es.len() > 0,
        ds[0].route_start == 0,
        forall|p2: int|
            0 < p2 < ds.len() ==> (#[trigger] ds[p2]).route_start == ds[p2 - 1].route_start + ds[p2 - 1].route_len,
        routes.len() == ds[ds.len() - 1].route_start + ds[ds.len() - 1].route_len,
        forall|p2: int|
            0 <= p2 < ds.len() ==> routes_of(
                es,
                p2,
                routes,
                (#[trigger] ds[p2]).route_start as int,
                ds[p2].route_start + ds[p2].route_len,
            ),
    ensures
        route_layout(es, table_of(routes), ranges_of(ds)),
{
    let table = table_of(routes);
    let ranges = ranges_of(ds);
    let n = es.len() as int;
    assert forall|i: int| 0 < i < ranges.len() implies (#[trigger] ranges[i]).0 == ranges[i - 1].0 + ranges[i - 1].1 by {
        assert(ds[i].route_start == ds[i - 1].route_start + ds[i - 1].route_len);
    }
    assert forall|p: int, k: int|
        #![trigger in_range(ranges, p, k)]
        0 <= p < n && in_range(ranges, p, k) implies is_child(es, p, table[k].1 as int, table[k].0) by {
        assert(routes_of(es, p, routes, ds[p].route_start as int, ds[p].route_start + ds[p].route_len));
        assert(is_child(es, p, routes[k].child.0 as int, routes[k].selector.0));
    }
    assert forall|p: int, k1: int, k2: int|
        #![trigger in_range(ranges, p, k1), in_range(ranges, p, k2)]
        0 <= p < n && in_range(ranges, p, k1) && in_range(ranges, p, k2) && k1 < k2 implies table[k1].0
            < table[k2].0 by {
        assert(routes_of(es, p, routes, ds[p].route_start as int, ds[p].route_start + ds[p].route_len));
        assert(routes[k1].selector.0 < routes[k2].selector.0);
    }
    assert forall|p: int, c: int|
        0 <= p < n && 0 <= c < n && (#[trigger] es[c]).parent == Some((#[trigger] es[p]).tag) implies exists|k: int|
        in_range(ranges, p, k) && (#[trigger] table[k]).1 == c by {
        assert(routes_of(es, p, routes, ds[p].route_start as int, ds[p].route_start + ds[p].route_len));
        let k = choose|k: int|
            ds[p].route_start <= k < ds[p].route_start + ds[p].route_len && (#[trigger] routes[k]).child.0 == c;
        assert(in_range(ranges, p, k));
        assert(table[k].1 == c);
    }
    lemma_route_count(es, root, table, ranges);
}

/// Checks the pending protocols `ps` and links them into a registry, as
/// `spec_build` describes.
fn link(ps: &Vec<PendingProtocol>) -> (r: Result<ProtocolRegistry, RegistryError>)
    requires
        ps@.len() <= 65536,
        forall|i: int| 0 <= i < ps@.len() ==> pending_wf((#[trigger] ps@[i])@),
    ensures
        match spec_build(views_of(ps@)) {
            Ok(m) => r matches Ok(reg) && reg@ == m && reg.formats() == spec_formats(views_of(ps@)) && route_layout(
                m.protocols,
                reg.route_table(),
                reg.route_ranges(),
            ),
            Err(e) => r matches Err(x) && x@ == e,
        },
{
    let n = ps.len();
    let ghost vs = views_of(ps@);
    let ghost es = entries_of(vs);
    assert(es.len() == n);
    assert forall|k: int| 0 <= k < n implies es[k] == (#[trigger] ps@[k]).entry && vs[k] == ps@[k]@ by {}

    // No two protocols may share a tag.
    let mut i: usize = 0;
    while i < n
        invariant
            0 <= i <= n,
            n == ps@.len(),
            vs == views_of(ps@),
            forall|x: int| 0 <= x < i ==> !dup_before(vs, x),
        decreases n - i,
    {
        let mut j: usize = 0;
        while j < i
            invariant
                0 <= j <= i < n,
                n == ps@.len(),
                vs == views_of(ps@),
                forall|x: int| 0 <= x < i ==> !dup_before(vs, x),
                forall|y: int| 0 <= y < j ==> (#[trigger] vs[y]).entry.tag != vs[i as int].entry.tag,
            decreases i - j,
        {
            if ps[j].entry.tag == ps[i].entry.tag {
                let name = ps[i].name.clone();
                proof {
                    assert(vs[j as int].entry.tag == vs[i as int].entry.tag);
                    assert(dup_before(vs, i as int));
                    lemma_first_dup_skip(vs, 0, i as int);
                }
                return Err(RegistryError::DuplicateProtocol(name));
            }
            j = j + 1;
        }
        i = i + 1;
    }
    proof {
        lemma_first_dup_skip(vs, 0, n as int);
        assert forall|a: int, b: int| 0 <= a < b < n implies (#[trigger] es[a]).tag != (#[trigger] es[b]).tag by {
            assert(!dup_before(vs, b));
            assert(vs[a].entry == es[a]);
        }
    }

    // Every protocol must link under a registered parent, or be the one root.
    let mut root: Option<usize> = None;
    let mut i: usize = 0;
    while i < n
        invariant
            0 <= i <= n,
            n == ps@.len(),
            vs == views_of(ps@),
            es == entries_of(vs),
            es.len() == n,
            forall|k: int| 0 <= k < n ==> es[k] == (#[trigger] ps@[k]).entry && vs[k] == ps@[k]@,
            forall|a: int, b: int| 0 <= a < b < n ==> (#[trigger] es[a]).tag != (#[trigger] es[b]).tag,
            forall|x: int| 0 <= x < i ==> route_error_at(vs, x) is None,
            root matches Some(r0) ==> r0 < i && es[r0 as int].parent is None,
            n <= 65536,
            forall|x: int| 0 <= x < i && (#[trigger] es[x]).parent is None ==> root == Some(x as usize),
            first_dup_from(vs, 0) is None,
        decreases n - i,
    {
        match ps[i].entry.parent {
            None => {
                if root.is_some() {
                    proof {
                        let r0 = root->Some_0;
                        assert(vs[r0 as int].entry.parent is None);
                        assert(route_error_at(vs, i as int) == Some(RegistryErrorView::MultipleRoots));
                        lemma_first_route_error_skip(vs, 0, i as int);
                    }
                    return Err(RegistryError::MultipleRoots);
                }
                root = Some(i);
                proof {
                    assert(route_error_at(vs, i as int) is None) by {
                        assert forall|j: int| 0 <= j < i implies !((#[trigger] vs[j]).entry.parent is None) by {
                            assert(vs[j].entry == es[j]);
                        }
                    }
                }
            },
            Some(t) => {
                match find_tag(ps, t) {
                    None => {
                        let name = ps[i].name.clone();
                        proof {
                            assert(route_error_at(vs, i as int) == Some(RegistryErrorView::MissingParent(name@)));
                            lemma_first_route_error_skip(vs, 0, i as int);
                        }
                        return Err(RegistryError::MissingParent(name));
                    },
                    Some(k) => {
                        let sel = ps[i].entry.selector;
                        proof {
                            assert(es[k as int].tag == t);
                            assert(has_tag(es, t));
                            let k2 = index_of_tag(es, t);
                            if k2 != k as int {
                                if k2 < k as int {
                                    assert(es[k2].tag != es[k as int].tag);
                                } else {
                                    assert(es[k as int].tag != es[k2].tag);
                                }
                            }
                            assert(n <= 65536);
                        }
                        let mut j: usize = 0;
                        while j < i
                            invariant
                                0 <= j <= i < n,
                                n == ps@.len(),
                                vs == views_of(ps@),
                                es == entries_of(vs),
                                n <= 65536,
                                k < n,
                                has_tag(es, t),
                                k as int == index_of_tag(es, t),
                                forall|x: int| 0 <= x < i ==> route_error_at(vs, x) is None,
                                first_dup_from(vs, 0) is None,
                                forall|k3: int| 0 <= k3 < n ==> (#[trigger] vs[k3]) == ps@[k3]@,
                                vs[i as int].entry.parent == Some(t),
                                sel == vs[i as int].entry.selector,
                                forall|y: int|
                                    0 <= y < j ==> !((#[trigger] vs[y]).entry.parent == Some(t) && vs[y].entry.selector
                                        == sel),
                            decreases i - j,
                        {
                            let same = match ps[j].entry.parent {
                                Some(t2) => t2 == t && ps[j].entry.selector == sel,
                                None => false,
                            };
                            if same {
                                proof {
                                    assert(vs[j as int].entry.parent == Some(t));
                                    assert(route_error_at(vs, i as int) == Some(
                                        RegistryErrorView::DuplicateRoute { parent: k as nat, selector: sel },
                                    ));
                                    lemma_first_route_error_skip(vs, 0, i as int);
                                }
                                return Err(
                                    RegistryError::DuplicateRoute {
                                        parent: ProtocolId(k as u16),
                                        selector: ProtocolKey(sel),
                                    },
                                );
                            }
                            j = j + 1;
                        }
                        proof {
                            assert(route_error_at(vs, i as int) is None);
                        }
                    },
                }
            },
        }
        i = i + 1;
    }
    proof {
        lemma_first_route_error_skip(vs, 0, n as int);
    }
    let root = match root {
        None => {
            proof {
                assert forall|x: int| 0 <= x < es.len() implies !((#[trigger] es[x]).parent is None) by {}
            }
            return Err(RegistryError::MissingRoot);
        },
        Some(r0) => r0,
    };
    proof {
        lemma_spec_build_wf(vs);
        let c = choose|x: int| 0 <= x < es.len() && (#[trigger] es[x]).parent is None;
        assert(c == root as int);
    }

    // Link each protocol to its children.
    let mut routes: Vec<Route> = Vec::new();
    let mut descriptors: Vec<ProtocolDescriptor> = Vec::new();
    let mut p: usize = 0;
    while p < n
        invariant
            0 <= p <= n,
            n == ps@.len(),
            n <= 65536,
            es.len() == n,
            forall|k: int| 0 <= k < n ==> es[k] == (#[trigger] ps@[k]).entry,
            spec_build(vs) == Ok::<RegistryModel, RegistryErrorView>(RegistryModel { root: root as nat, protocols: es }),
            (RegistryModel { root: root as nat, protocols: es }).wf(),
            descriptors@.len() == p,
            p > 0 ==> descriptors@[0].route_start == 0,
            forall|p2: int|
                0 < p2 < p ==> (#[trigger] descriptors@[p2]).route_start == descriptors@[p2 - 1].route_start
                    + descriptors@[p2 - 1].route_len,
            p == 0 ==> routes@.len() == 0,
            p > 0 ==> routes@.len() == descriptors@[p - 1].route_start + descriptors@[p - 1].route_len,
            forall|p2: int|
                0 <= p2 < p ==> (#[trigger] descriptors@[p2]).entry == es[p2] && routes_of(
                    es,
                    p2,
                    routes@,
                    descriptors@[p2].route_start as int,
                    descriptors@[p2].route_start + descriptors@[p2].route_len,
                ),
        decreases n - p,
    {
        proof {
            reveal(RegistryModel::wf);
        }
        let mut children = sorted_children(ps, p, Ghost(es));
        let start = routes.len();
        let len = children.len();
        let ghost old_routes = routes@;
        let ghost kids = children@;
        routes.append(&mut children);
        proof {
            assert(routes@.len() == start + len);
            assert forall|p2: int|
                0 <= p2 < p implies (#[trigger] descriptors@[p2]).entry == es[p2] && routes_of(
                es,
                p2,
                routes@,
                descriptors@[p2].route_start as int,
                descriptors@[p2].route_start + descriptors@[p2].route_len,
            ) by {
                lemma_routes_of_extend(
                    es,
                    p2,
                    old_routes,
                    kids,
                    descriptors@[p2].route_start as int,
                    descriptors@[p2].route_start + descriptors@[p2].route_len,
                );
            }
            lemma_routes_of_shift(es, p as int, old_routes, kids);
        }
        descriptors.push(ProtocolDescriptor { entry: ps[p].entry, route_start: start, route_len: len });
        p = p + 1;
    }
    let ghost m = RegistryModel { root: root as nat, protocols: es };
    proof {
        assert(descriptors@.map_values(|d: ProtocolDescriptor| d.entry) =~= es);
        reveal(RegistryModel::wf);
        lemma_linked_layout(es, root as nat, routes@, descriptors@);
    }
    let formats = formats_of(ps);
    let reg = ProtocolRegistry { root: ProtocolId(root as u16), protocols: descriptors, routes, formats };
    proof {
        assert(reg@ == m);
    }
    Ok(reg)
}


/// Law of the registry: in a registry that `build` links from protocols
/// `ps`, selector `sel` resolves under the protocol with id `p` to the
/// protocol with id `c` exactly when `c` was registered with `p`'s tag as
/// its parent and with `sel` as its selector.
pub proof fn law_resolve_finds_registered_child(ps: Seq<PendingView>, p: int, c: int, sel: u32)
    requires
        spec_build(ps) is Ok,
        forall|i: int| 0 <= i < ps.len() ==> (#[trigger] ps[i]).entry.layout.wf(),
        ps.len() <= 65536,
    ensures
        ({
            let m = spec_build(ps)->Ok_0;
            m.resolve(p, sel) == Some(c) <==> (0 <= p < ps.len() && 0 <= c < ps.len()
                && ps[c].entry.parent == Some(ps[p].entry.tag) && ps[c].entry.selector == sel)
        }),
{
    let m = spec_build(ps)->Ok_0;
    lemma_spec_build_wf(ps);
    assert(m.protocols == entries_of(ps));
    if 0 <= p < ps.len() && 0 <= c < ps.len() && ps[c].entry.parent == Some(ps[p].entry.tag)
        && ps[c].entry.selector == sel {
        assert(is_child(m.protocols, p, c, sel));
        lemma_resolve_child(m, p, c, sel);
    }
    if m.resolve(p, sel) == Some(c) {
        assert(is_child(m.protocols, p, c, sel));
    }
}

/// Law of the registry: the root of a linked registry is the one protocol
/// without a parent, and every protocol keeps its position as its id.
pub proof fn law_built_root_is_parentless(ps: Seq<PendingView>)
    requires
        spec_build(ps) is Ok,
        forall|i: int| 0 <= i < ps.len() ==> (#[trigger] ps[i]).entry.layout.wf(),
        ps.len() <= 65536,
    ensures
        ({
            let m = spec_build(ps)->Ok_0;
            &&& m.root < ps.len()
            &&& ps[m.root as int].entry.parent is None
            &&& forall|i: int| 0 <= i < ps.len() && (#[trigger] ps[i]).entry.parent is None ==> i == m.root
            &&& forall|i: int| 0 <= i < ps.len() ==> (#[trigger] m.protocols[i]) == ps[i].entry
        }),
{
    let m = spec_build(ps)->Ok_0;
    lemma_spec_build_wf(ps);
    reveal(RegistryModel::wf);
    assert(m.protocols == entries_of(ps));
    assert forall|i: int| 0 <= i < ps.len() && (#[trigger] ps[i]).entry.parent is None implies i == m.root by {
        assert(m.protocols[i] == ps[i].entry);
    }
}

/// Law of the registry's text: a protocol added as packet type `P` keeps
/// `P`'s name and fields in the registry, so a layer of that protocol is
/// written as [`format_protocol`] writes `P` on the layer's header.
pub proof fn law_registered_format_is_protocol_format<P: Packet>(ps: Seq<PendingView>, c: int)
    requires
        0 <= c < ps.len(),
        ps[c] == PendingProtocol::spec_of::<P>(),
    ensures
        spec_formats(ps)[c] == (FrameFormatView { name: P::spec_protocol_name(), fields: P::spec_fields() }),
{
}

/// Law of the builder: adding a protocol whose entry the builder already
/// holds makes no difference to what it builds.
pub proof fn law_repeat_adds_nothing(ps: Seq<PendingView>, p: PendingView)
    requires
        exists|j: int| 0 <= j < ps.len() && (#[trigger] ps[j]).entry == p.entry,
    ensures
        distinct_entries(ps.push(p)) == distinct_entries(ps),
        spec_build(distinct_entries(ps.push(p))) == spec_build(distinct_entries(ps)),
{
    let q = ps.push(p);
    assert(q.drop_last() =~= ps);
    let j = choose|j: int| 0 <= j < ps.len() && (#[trigger] ps[j]).entry == p.entry;
    assert(q[j] == ps[j]);
    assert(entry_before(q, q.len() - 1));
}

/// Law of keys: two keys are equal exactly when their selector values are,
/// so [`ProtocolKey::new`] gives equal keys exactly for equal values.
pub proof fn law_keys_equal_iff_values(x: ProtocolKey, y: ProtocolKey)
    ensures
        (x == y) <==> (x.spec_get() == y.spec_get()),
{
}

} // verus!
