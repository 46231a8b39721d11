//! Link-layer and network-layer addresses.

use vstd::prelude::*;
use vstd::string::*;

use crate::text::{decimal, hex, hex_lower, push_decimal, push_hex_lower, push_hex_padded, spaces, zero_pad};

verus! {

/// A 128-bit IPv6 address, as its sixteen octets in network order.
#[derive(Debug, Clone, Copy, PartialEq, Eq, Hash)]
pub struct IPv6Addr {
    octets: [u8; 16],
}

impl View for IPv6Addr {
    type V = Seq<u8>;

    closed spec fn view(&self) -> Seq<u8> {
        self.octets@
    }
}

impl IPv6Addr {
    /// The address made of these sixteen octets.
    pub fn from_octets(octets: [u8; 16]) -> (r: IPv6Addr)
        ensures
            r@ == octets@,
    {
        IPv6Addr { octets }
    }

    /// The address stored in the sixteen bytes of `data` at `off`.
    pub fn read_at(data: &[u8], off: usize) -> (r: IPv6Addr)
        requires
            off + 16 <= data.len(),
        ensures
            r@ == data@.subrange(off as int, off + 16),
    {
        let mut octets = [0u8; 16];
        let mut i: usize = 0;
        while i < 16
            invariant
                0 <= i <= 16,
                off + 16 <= data.len(),
                forall|k: int| 0 <= k < i ==> octets@[k] == data@[off + k],
            decreases 16 - i,
        {
            octets[i] = data[off + i];
            i = i + 1;
        }
        assert(octets@ =~= data@.subrange(off as int, off + 16));
        IPv6Addr { octets }
    }

    /// The sixteen octets of the address.
    pub fn octets(&self) -> (r: &[u8; 16])
        ensures
            r@ == self@,
    {
        &self.octets
    }

    /// The 16-bit group `i` of the address.
    fn group(&self, i: usize) -> (r: u64)
        requires
            i < 8,
        ensures
            r == ipv6_group(self@, i as int),
    {
        (self.octets[2 * i] as u64) * 256 + self.octets[2 * i + 1] as u64
    }

    /// Appends groups `lo..hi` in lower-case hexadecimal, joined by colons.
    fn push_groups(&self, s: &mut String, lo: usize, hi: usize)
        requires
            lo <= hi <= 8,
        ensures
            final(s)@ == old(s)@ + groups_text(self@, lo as int, hi as int),
    {
        let mut j = lo;
        while j < hi
            invariant
                lo <= j <= hi <= 8,
                s@ == old(s)@ + groups_text(self@, lo as int, j as int),
            decreases hi - j,
        {
            proof {
                reveal_strlit(":");
            }
            if j > lo {
                s.append(":");
            }
            let g = self.group(j);
            push_hex_lower(s, g);
            j = j + 1;
            proof {
                assert(s@ =~= old(s)@ + groups_text(self@, lo as int, j as int));
            }
        }
    }

    /// The address in its shortest text form: lower-case hexadecimal groups
    /// joined by colons, with the first longest run of two or more zero
    /// groups written as `::`; an IPv4-mapped address is written as
    /// `::ffff:` and dotted decimal.
    pub fn to_string(&self) -> (r: String)
        ensures
            r@ == ipv6_text(self@),
    {
        let mut s = String::new();
        let mut mapped = self.octets[10] == 0xff && self.octets[11] == 0xff;
        let mut k: usize = 0;
        while k < 10
            invariant
                0 <= k <= 10,
                self@.len() == 16,
                mapped == (self@[10] == 0xff && self@[11] == 0xff && forall|x: int| 0 <= x < k ==> self@[x] == 0),
            decreases 10 - k,
        {
            if self.octets[k] != 0 {
                mapped = false;
            }
            k = k + 1;
        }
        if mapped {
            proof {
                reveal_strlit("::ffff:");
            }
            s.append("::ffff:");
            let v4 = IPv4Addr::new(self.octets[12], self.octets[13], self.octets[14], self.octets[15]);
            let t = v4.to_string();
            s.append(t.as_str());
            proof {
                assert(v4@ =~= self@.subrange(12, 16));
                assert(s@ =~= ipv6_text(self@));
            }
            return s;
        }
        let mut best_start: usize = 8;
        let mut best_len: usize = 0;
        let mut run: usize = 0;
        let mut i: usize = 8;
        while i > 0
            invariant
                0 <= i <= 8,
                self@.len() == 16,
                run == zero_run(self@, i as int),
                (best_start as int, best_len as nat) == longest_zero_run(self@, i as int),
                run <= 8 - i,
            decreases i,
        {
            i = i - 1;
            if self.group(i) == 0 {
                run = run + 1;
            } else {
                run = 0;
            }
            if run >= best_len {
                best_start = i;
                best_len = run;
            }
        }
        proof {
            lemma_longest_zero_run_bounds(self@, 0);
        }
        if best_len > 1 {
            self.push_groups(&mut s, 0, best_start);
            proof {
                reveal_strlit("::");
            }
            s.append("::");
            self.push_groups(&mut s, best_start + best_len, 8);
        } else {
            self.push_groups(&mut s, 0, 8);
        }
        proof {
            assert(s@ =~= ipv6_text(self@));
        }
        s
    }
}

/// The 16-bit group `i` of sixteen octets, in network order.
pub open spec fn ipv6_group(o: Seq<u8>, i: int) -> nat {
    (o[2 * i] as nat) * 256 + o[2 * i + 1] as nat
}

/// The number of zero groups in a row from group `i` on.
pub open spec fn zero_run(o: Seq<u8>, i: int) -> nat
    decreases 8 - i,
{
    if i < 0 || i >= 8 || ipv6_group(o, i) != 0 {
        0
    } else {
        1 + zero_run(o, i + 1)
    }
}

/// The first of the longest runs of zero groups that start at group `i` or
/// later, as its start and its length.
pub open spec fn longest_zero_run(o: Seq<u8>, i: int) -> (int, nat)
    decreases 8 - i,
{
    if i >= 8 {
        (8, 0)
    } else {
        let rest = longest_zero_run(o, i + 1);
        if zero_run(o, i) >= rest.1 {
            (i, zero_run(o, i))
        } else {
            rest
        }
    }
}

/// Groups `lo..hi` in lower-case hexadecimal, joined by colons.
pub open spec fn groups_text(o: Seq<u8>, lo: int, hi: int) -> Seq<char>
    decreases hi - lo,
{
    if hi <= lo {
        Seq::empty()
    } else if hi == lo + 1 {
        hex_lower(ipv6_group(o, lo))
    } else {
        groups_text(o, lo, hi - 1) + seq![':'] + hex_lower(ipv6_group(o, hi - 1))
    }
}

/// The first ten octets are zero and the next two are `0xff`.
pub open spec fn ipv4_mapped(o: Seq<u8>) -> bool {
    &&& forall|k: int| 0 <= k < 10 ==> o[k] == 0
    &&& o[10] == 0xff
    &&& o[11] == 0xff
}

/// Text form of sixteen octets as [`IPv6Addr::to_string`] writes it.
pub open spec fn ipv6_text(o: Seq<u8>) -> Seq<char> {
    if ipv4_mapped(o) {
        seq![':', ':', 'f', 'f', 'f', 'f', ':'] + ipv4_text(o.subrange(12, 16))
    } else {
        let (start, len) = longest_zero_run(o, 0);
        if len > 1 {
            groups_text(o, 0, start) + seq![':', ':'] + groups_text(o, start + len, 8)
        } else {
            groups_text(o, 0, 8)
        }
    }
}

/// A run found from group `i` on starts at `i` or later and ends by group 8.
proof fn lemma_longest_zero_run_bounds(o: Seq<u8>, i: int)
    requires
        0 <= i <= 8,
    ensures
        i <= longest_zero_run(o, i).0,
        longest_zero_run(o, i).0 + longest_zero_run(o, i).1 <= 8,
    decreases 8 - i,
{
    lemma_zero_run_bound(o, i);
    if i < 8 {
        lemma_longest_zero_run_bounds(o, i + 1);
    }
}

/// A run from group `i` ends by group 8.
proof fn lemma_zero_run_bound(o: Seq<u8>, i: int)
    requires
        0 <= i <= 8,
    ensures
        i + zero_run(o, i) <= 8,
    decreases 8 - i,
{
    if i < 8 {
        lemma_zero_run_bound(o, i + 1);
    }
}

/// A 32-bit IPv4 address, as its four octets in network order.
#[derive(Debug, Clone, Copy, PartialEq, Eq, Hash)]
pub struct IPv4Addr {
    octets: [u8; 4],
}

impl View for IPv4Addr {
    type V = Seq<u8>;

    closed spec fn view(&self) -> Seq<u8> {
        self.octets@
    }
}

impl IPv4Addr {
    /// The address `a.b.c.d`.
    pub fn new(a: u8, b: u8, c: u8, d: u8) -> (r: IPv4Addr)
        ensures
            r@ == seq![a, b, c, d],
    {
        let octets = [a, b, c, d];
        assert(octets@ =~= seq![a, b, c, d]);
        IPv4Addr { octets }
    }

    /// The address stored in the four bytes of `data` at `off`.
    pub fn read_at(data: &[u8], off: usize) -> (r: IPv4Addr)
        requires
            off + 4 <= data.len(),
        ensures
            r@ == data@.subrange(off as int, off + 4),
    {
        let octets = [data[off], data[off + 1], data[off + 2], data[off + 3]];
        assert(octets@ =~= data@.subrange(off as int, off + 4));
        IPv4Addr { octets }
    }

    /// The four octets of the address.
    pub fn octets(&self) -> (r: [u8; 4])
        ensures
            r@ == self@,
    {
        self.octets
    }

    /// The address in dotted-decimal form, such as `192.168.0.1`.
    pub fn to_string(&self) -> (r: String)
        ensures
            r@ == ipv4_text(self@),
    {
        let mut s = String::new();
        push_decimal(&mut s, self.octets[0] as u64);
        proof {
            reveal_strlit(".");
        }
        s.append(".");
        push_decimal(&mut s, self.octets[1] as u64);
        s.append(".");
        push_decimal(&mut s, self.octets[2] as u64);
        s.append(".");
        push_decimal(&mut s, self.octets[3] as u64);
        proof {
            assert(s@ =~= ipv4_text(self@));
        }
        s
    }
}

/// A 48-bit Ethernet hardware address.
#[derive(Debug, Clone, Copy, PartialEq, Eq, Hash)]
pub struct MacAddr {
    octets: [u8; 6],
}

impl View for MacAddr {
    type V = Seq<u8>;

    closed spec fn view(&self) -> Seq<u8> {
        self.octets@
    }
}

impl From<[u8; 6]> for MacAddr {
    fn from(v: [u8; 6]) -> (r: Self)
        ensures
            r@ == v@,
    {
        MacAddr { octets: v }
    }
}

impl vstd::std_specs::convert::FromSpecImpl<[u8; 6]> for MacAddr {
    open spec fn obeys_from_spec() -> bool {
        true
    }

    closed spec fn from_spec(v: [u8; 6]) -> Self {
        MacAddr { octets: v }
    }
}

impl MacAddr {
    /// Creates a new `MacAddr` from the given bytes.
    pub fn new(bytes: [u8; 6]) -> (r: MacAddr)
        ensures
            r@ == bytes@,
    {
        MacAddr { octets: bytes }
    }

    /// The address stored in the six bytes of `data` at `off`.
    pub fn read_at(data: &[u8], off: usize) -> (r: MacAddr)
        requires
            off + 6 <= data.len(),
        ensures
            r@ == data@.subrange(off as int, off + 6),
    {
        let octets = [data[off], data[off + 1], data[off + 2], data[off + 3], data[off + 4], data[off + 5]];
        assert(octets@ =~= data@.subrange(off as int, off + 6));
        MacAddr { octets }
    }

    /// The six octets of the address.
    pub fn octets(&self) -> (r: &[u8; 6])
        ensures
            r@ == self@,
    {
        &self.octets
    }

    /// The address as six two-digit upper-case hexadecimal octets joined by
    /// colons, such as `0A:1B:2C:3D:4E:5F`.
    pub fn to_string(&self) -> (r: String)
        ensures
            r@ == mac_text(self@),
    {
        let mut s = String::new();
        proof {
            reveal_strlit(":");
        }
        let mut i: usize = 0;
        while i < 6
            invariant
                0 <= i <= 6,
                self@.len() == 6,
                s@ == mac_text_prefix(self@, i as int),
            decreases 6 - i,
        {
            proof {
                reveal_strlit(":");
            }
            if i > 0 {
                s.append(":");
            }
            push_hex_padded(&mut s, self.octets[i] as u64, 2);
            i = i + 1;
            proof {
                assert(s@ =~= mac_text_prefix(self@, i as int));
            }
        }
        s
    }

    /// The six octets of the address, taking the address by value.
    pub fn bytes(self) -> (r: [u8; 6])
        ensures
            r@ == self@,
    {
        self.octets
    }
}

/// Dotted-decimal text of four octets.
pub open spec fn ipv4_text(o: Seq<u8>) -> Seq<char> {
    decimal(o[0] as nat) + seq!['.'] + decimal(o[1] as nat) + seq!['.'] + decimal(o[2] as nat) + seq!['.']
        + decimal(o[3] as nat)
}

/// The first `n` octets of `o` as two-digit hexadecimal, joined by colons.
pub open spec fn mac_text_prefix(o: Seq<u8>, n: int) -> Seq<char>
    decreases n,
{
    if n <= 0 {
        Seq::empty()
    } else if n == 1 {
        zero_pad(hex(o[0] as nat), 2)
    } else {
        mac_text_prefix(o, n - 1) + seq![':'] + zero_pad(hex(o[n - 1] as nat), 2)
    }
}

/// Colon-separated two-digit hexadecimal text of six octets.
pub open spec fn mac_text(o: Seq<u8>) -> Seq<char> {
    mac_text_prefix(o, 6)
}

#[verifier::external_type_specification]
#[verifier::external_body]
pub struct ExIoError(std::io::Error);

/// `std::io::Error::new` with kind `InvalidInput` and message `msg`.
///
/// Its contract states nothing of the error: `std::io::ErrorKind` can
/// only be declared to the verifier as an opaque type, whose variants a
/// contract cannot name, so the error's kind is left unsaid (a test
/// checks it).
#[verifier::external_body]
fn invalid_input(msg: &str) -> std::io::Error {
    std::io::Error::new(std::io::ErrorKind::InvalidInput, msg)
}

/// The `ifr_name` field of an interface request for interface `name`: its
/// bytes as C characters, zero-filled to sixteen. A name of sixteen bytes
/// or more leaves no room for the terminating zero and is refused with an
/// `InvalidInput` error.
pub fn str_to_ifname(name: &str) -> (r: Result<[i8; 16], std::io::Error>)
    ensures
        r is Ok <==> name.spec_bytes().len() < 16,
        r matches Ok(buf) ==> {
            &&& forall|k: int| 0 <= k < name.spec_bytes().len() ==> buf@[k] == name.spec_bytes()[k] as i8
            &&& forall|k: int| name.spec_bytes().len() <= k < 16 ==> buf@[k] == 0
        },
{
    let bytes = name.as_bytes();
    if bytes.len() >= 16 {
        return Err(invalid_input("interface name too long"));
    }
    let mut buf = [0i8; 16];
    let mut i: usize = 0;
    while i < bytes.len()
        invariant
            0 <= i <= bytes@.len() < 16,
            bytes@ == name.spec_bytes(),
            forall|k: int| 0 <= k < i ==> buf@[k] == bytes@[k] as i8,
            forall|k: int| i <= k < 16 ==> buf@[k] == 0,
        decreases bytes@.len() - i,
    {
        buf[i] = bytes[i] as i8;
        i = i + 1;
    }
    Ok(buf)
}

/// A network interface: its name and its index.
#[derive(Debug)]
pub struct NetworkInterface {
    pub name: String,
    pub index: u32,
}

/// An address of a network interface.
#[derive(Debug, Clone, Copy)]
pub enum SockAddr {
    IpV4(IPv4Addr),
    IpV6(IPv6Addr),
}

/// The text of an interface address.
pub open spec fn sockaddr_text(a: SockAddr) -> Seq<char> {
    match a {
        SockAddr::IpV4(x) => ipv4_text(x@),
        SockAddr::IpV6(x) => ipv6_text(x@),
    }
}

impl SockAddr {
    /// The address in dotted-decimal or IPv6 text form.
    pub fn to_string(&self) -> (r: String)
        ensures
            r@ == sockaddr_text(*self),
    {
        match self {
            SockAddr::IpV4(x) => x.to_string(),
            SockAddr::IpV6(x) => x.to_string(),
        }
    }
}

/// The addresses one entry of the system's interface list gives an
/// interface: its own address, its netmask and its broadcast address, each
/// when the entry has one of a known family.
#[derive(Debug, Clone, Copy)]
pub struct NetworkInterfaceComp {
    /// Network address of this interface.
    pub address: Option<SockAddr>,
    /// Netmask of this interface.
    pub netmask: Option<SockAddr>,
    /// Broadcast address of this interface, if applicable.
    pub destination: Option<SockAddr>,
}

/// `prefix` and the text of `a`, or nothing without an address.
pub open spec fn opt_text(prefix: Seq<char>, a: Option<SockAddr>) -> Seq<char> {
    match a {
        Some(x) => prefix + sockaddr_text(x),
        None => Seq::empty(),
    }
}

/// The start of an entry's line: `inet6` or `inet ` and the address, or
/// `<none>` without one.
pub open spec fn address_part(a: Option<SockAddr>) -> Seq<char> {
    match a {
        Some(SockAddr::IpV6(x)) => seq![' ', ' ', ' ', ' ', 'i', 'n', 'e', 't', '6', ' '] + ipv6_text(x@),
        Some(SockAddr::IpV4(x)) => seq![' ', ' ', ' ', ' ', 'i', 'n', 'e', 't', ' ', ' '] + ipv4_text(x@),
        None => seq![' ', ' ', ' ', ' ', 'i', 'n', 'e', 't', ' ', ' ', '<', 'n', 'o', 'n', 'e', '>'],
    }
}

/// The text line of one interface entry: four spaces, `inet6` or `inet `
/// and the address (or `<none>`), then the netmask and the broadcast
/// address when present.
pub open spec fn comp_line(c: NetworkInterfaceComp) -> Seq<char> {
    address_part(c.address) + opt_text(seq![' ', ' ', 'n', 'e', 't', 'm', 'a', 's', 'k', ' '], c.netmask)
        + opt_text(seq![' ', ' ', 'b', 'r', 'o', 'a', 'd', 'c', 'a', 's', 't', ' '], c.destination) + seq!['\n']
}

/// The lines of the first `n` entries of `cs`.
pub open spec fn comps_text(cs: Seq<NetworkInterfaceComp>, n: int) -> Seq<char>
    decreases n,
{
    if n <= 0 {
        Seq::empty()
    } else {
        comps_text(cs, n - 1) + comp_line(cs[n - 1])
    }
}

/// The text of the first `n` interfaces of `m`: each name on a line of its
/// own, followed by the lines of its entries.
pub open spec fn map_text(m: Seq<(Seq<char>, Seq<NetworkInterfaceComp>)>, n: int) -> Seq<char>
    decreases n,
{
    if n <= 0 {
        Seq::empty()
    } else {
        map_text(m, n - 1) + m[n - 1].0 + seq!['\n'] + comps_text(m[n - 1].1, m[n - 1].1.len() as int)
    }
}

/// The entries of the first interface named `name` in `m`, if any.
pub open spec fn lookup(m: Seq<(Seq<char>, Seq<NetworkInterfaceComp>)>, name: Seq<char>) -> Option<
    Seq<NetworkInterfaceComp>,
>
    decreases m.len(),
{
    if m.len() == 0 {
        None
    } else if m[0].0 == name {
        Some(m[0].1)
    } else {
        lookup(m.drop_first(), name)
    }
}

/// The names of `list`, each once, in order of first appearance.
pub open spec fn first_names(list: Seq<(Seq<char>, NetworkInterfaceComp)>) -> Seq<Seq<char>>
    decreases list.len(),
{
    if list.len() == 0 {
        Seq::empty()
    } else {
        let r = first_names(list.drop_last());
        if r.contains(list.last().0) {
            r
        } else {
            r.push(list.last().0)
        }
    }
}

/// The entries of `list` named `name`, in order.
pub open spec fn comps_of(list: Seq<(Seq<char>, NetworkInterfaceComp)>, name: Seq<char>) -> Seq<
    NetworkInterfaceComp,
>
    decreases list.len(),
{
    if list.len() == 0 {
        Seq::empty()
    } else {
        let r = comps_of(list.drop_last(), name);
        if list.last().0 == name {
            r.push(list.last().1)
        } else {
            r
        }
    }
}

/// The entries of `list` grouped by interface name: one group for each
/// name, in order of first appearance, holding that name's entries in order.
pub open spec fn grouped(list: Seq<(Seq<char>, NetworkInterfaceComp)>) -> Seq<(Seq<char>, Seq<NetworkInterfaceComp>)> {
    first_names(list).map_values(|n: Seq<char>| (n, comps_of(list, n)))
}

/// A list of named entries as values.
pub open spec fn list_view(list: Seq<(String, NetworkInterfaceComp)>) -> Seq<(Seq<char>, NetworkInterfaceComp)> {
    list.map_values(|e: (String, NetworkInterfaceComp)| (e.0@, e.1))
}

/// One interface of a [`NetworkInterfaceMap`]: its name and its entries.
#[derive(Debug)]
struct InterfaceEntry {
    name: String,
    comps: Vec<NetworkInterfaceComp>,
}

/// The system's interfaces, each with the entries the interface list gives it.
#[derive(Debug)]
pub struct NetworkInterfaceMap {
    entries: Vec<InterfaceEntry>,
}

impl View for NetworkInterfaceMap {
    type V = Seq<(Seq<char>, Seq<NetworkInterfaceComp>)>;

    closed spec fn view(&self) -> Seq<(Seq<char>, Seq<NetworkInterfaceComp>)> {
        self.entries@.map_values(|e: InterfaceEntry| (e.name@, e.comps@))
    }
}

impl NetworkInterfaceMap {
    /// The map of the named entries of `list`, grouped by name as
    /// [`grouped`] describes.
    pub fn from_entries(list: Vec<(String, NetworkInterfaceComp)>) -> (r: Self)
        ensures
            r@ == grouped(list_view(list@)),
    {
        let ghost lv = list_view(list@);
        let mut names: Vec<String> = Vec::new();
        let mut i: usize = 0;
        while i < list.len()
            invariant
                0 <= i <= list@.len(),
                lv == list_view(list@),
                names@.map_values(|n: String| n@) == first_names(lv.take(i as int)),
            decreases list@.len() - i,
        {
            let ghost nv = names@.map_values(|n: String| n@);
            let mut found = false;
            let mut k: usize = 0;
            while k < names.len()
                invariant
                    0 <= k <= names@.len(),
                    0 <= i < list@.len(),
                    lv == list_view(list@),
                    nv == names@.map_values(|n: String| n@),
                    found == exists|x: int| 0 <= x < k && nv[x] == lv[i as int].0,
                decreases names@.len() - k,
            {
                proof {
                    assert(nv[k as int] == names@[k as int]@);
                    assert(lv[i as int].0 == list@[i as int].0@);
                }
                if names[k] == list[i].0 {
                    found = true;
                }
                k = k + 1;
            }
            proof {
                assert(lv.take(i + 1).drop_last() =~= lv.take(i as int));
                assert(lv.take(i + 1).last() == lv[i as int]);
                assert(found == nv.contains(lv[i as int].0));
            }
            if !found {
                names.push(list[i].0.clone());
                proof {
                    assert(names@.map_values(|n: String| n@) =~= nv.push(lv[i as int].0));
                }
            }
            i = i + 1;
        }
        proof {
            assert(lv.take(i as int) =~= lv);
        }
        let ghost nv = names@.map_values(|n: String| n@);
        let ghost want = grouped(lv);
        let mut entries: Vec<InterfaceEntry> = Vec::new();
        let mut g: usize = 0;
        while g < names.len()
            invariant
                0 <= g <= names@.len(),
                lv == list_view(list@),
                nv == names@.map_values(|n: String| n@),
                nv == first_names(lv),
                want == grouped(lv),
                entries@.map_values(|e: InterfaceEntry| (e.name@, e.comps@)) == want.take(g as int),
            decreases names@.len() - g,
        {
            let mut comps: Vec<NetworkInterfaceComp> = Vec::new();
            let mut j: usize = 0;
            while j < list.len()
                invariant
                    0 <= j <= list@.len(),
                    0 <= g < names@.len(),
                    lv == list_view(list@),
                    nv == names@.map_values(|n: String| n@),
                    comps@ == comps_of(lv.take(j as int), nv[g as int]),
                decreases list@.len() - j,
            {
                proof {
                    assert(lv.take(j + 1).drop_last() =~= lv.take(j as int));
                    assert(lv.take(j + 1).last() == lv[j as int]);
                }
                proof {
                    assert(nv[g as int] == names@[g as int]@);
                    assert(lv[j as int] == (list@[j as int].0@, list@[j as int].1));
                }
                if list[j].0 == names[g] {
                    comps.push(list[j].1);
                }
                j = j + 1;
            }
            proof {
                assert(lv.take(j as int) =~= lv);
            }
            let ghost before = entries@.map_values(|e: InterfaceEntry| (e.name@, e.comps@));
            let name = names[g].clone();
            proof {
                assert(name@ == nv[g as int]);
                assert(want[g as int] == (nv[g as int], comps_of(lv, nv[g as int])));
            }
            let ghost pair = (name@, comps@);
            let ghost old_entries = entries@;
            proof {
                assert(want.len() == nv.len());
                assert(before.len() == g);
                assert(old_entries.len() == g);
            }
            entries.push(InterfaceEntry { name, comps });
            proof {
                assert(entries@ == old_entries.push(entries@[g as int]));
                assert((entries@[g as int].name@, entries@[g as int].comps@) == pair);
                assert(entries@.map_values(|e: InterfaceEntry| (e.name@, e.comps@)) =~= before.push(pair));
                assert(want.take(g as int).push(want[g as int]) =~= want.take(g + 1));
            }
            g = g + 1;
        }
        let r = NetworkInterfaceMap { entries };
        proof {
            assert(want.take(g as int) =~= want);
        }
        r
    }

    /// The index of the first interface named `key`, if any.
    fn find(&self, key: &String) -> (r: Option<usize>)
        ensures
            match r {
                Some(i) => i < self@.len() && lookup(self@, key@) == Some(self@[i as int].1),
                None => lookup(self@, key@) is None,
            },
    {
        let ghost m = self@;
        let mut i: usize = 0;
        assert(m.skip(0) =~= m);
        while i < self.entries.len()
            invariant
                0 <= i <= self.entries@.len(),
                m == self@,
                m.len() == self.entries@.len(),
                lookup(m, key@) == lookup(m.skip(i as int), key@),
            decreases self.entries@.len() - i,
        {
            proof {
                assert(m.skip(i as int)[0] == m[i as int]);
                assert(m.skip(i as int).drop_first() =~= m.skip(i + 1));
            }
            if self.entries[i].name == *key {
                return Some(i);
            }
            i = i + 1;
        }
        None
    }

    /// The entries of interface `name`, if the map has it.
    pub fn get_components(&self, name: &str) -> (r: Option<&Vec<NetworkInterfaceComp>>)
        ensures
            match r {
                Some(v) => lookup(self@, name@) == Some(v@),
                None => lookup(self@, name@) is None,
            },
    {
        let key = name.to_owned();
        match self.find(&key) {
            Some(i) => Some(&self.entries[i].comps),
            None => None,
        }
    }

    /// Whether the map has interface `name`.
    pub fn contains_interface(&self, name: &str) -> (r: bool)
        ensures
            r == lookup(self@, name@) is Some,
    {
        let key = name.to_owned();
        self.find(&key).is_some()
    }

    /// The map as text: each interface's name on a line of its own,
    /// followed by one line for each of its entries.
    pub fn to_string(&self) -> (r: String)
        ensures
            r@ == map_text(self@, self@.len() as int),
    {
        let ghost m = self@;
        let mut s = String::new();
        let mut i: usize = 0;
        while i < self.entries.len()
            invariant
                0 <= i <= self.entries@.len(),
                m == self@,
                m.len() == self.entries@.len(),
                s@ == map_text(m, i as int),
            decreases self.entries@.len() - i,
        {
            let e = &self.entries[i];
            proof {
                reveal_strlit("\n");
            }
            s.append(e.name.as_str());
            s.append("\n");
            let ghost head = s@;
            let mut k: usize = 0;
            while k < e.comps.len()
                invariant
                    0 <= k <= e.comps@.len(),
                    s@ == head + comps_text(e.comps@, k as int),
                decreases e.comps@.len() - k,
            {
                let ghost before = s@;
                push_comp_line(&mut s, &e.comps[k]);
                proof {
                    assert(s@ =~= head + comps_text(e.comps@, k + 1));
                }
                k = k + 1;
            }
            proof {
                assert(m[i as int] == (e.name@, e.comps@));
                assert(s@ =~= map_text(m, i + 1));
            }
            i = i + 1;
        }
        s
    }
}

/// Appends the start of an entry's line.
fn push_address_part(s: &mut String, a: Option<SockAddr>)
    ensures
        final(s)@ == old(s)@ + address_part(a),
{
    proof {
        reveal_strlit("    inet6 ");
        reveal_strlit("    inet  ");
        reveal_strlit("    inet  <none>");
    }
    match a {
        Some(SockAddr::IpV6(x)) => {
            s.append("    inet6 ");
            let t = x.to_string();
            s.append(t.as_str());
        },
        Some(SockAddr::IpV4(x)) => {
            s.append("    inet  ");
            let t = x.to_string();
            s.append(t.as_str());
        },
        None => s.append("    inet  <none>"),
    }
}

/// Appends `prefix` and the text of `a`, if there is an address.
fn push_opt(s: &mut String, prefix: &str, a: Option<SockAddr>)
    ensures
        final(s)@ == old(s)@ + opt_text(prefix@, a),
{
    match a {
        Some(x) => {
            s.append(prefix);
            let t = x.to_string();
            s.append(t.as_str());
        },
        None => {},
    }
}

/// Appends the text line of entry `c`.
fn push_comp_line(s: &mut String, c: &NetworkInterfaceComp)
    ensures
        final(s)@ == old(s)@ + comp_line(*c),
{
    proof {
        reveal_strlit("  netmask ");
        reveal_strlit("  broadcast ");
        reveal_strlit("\n");
    }
    let ghost start = s@;
    push_address_part(s, c.address);
    push_opt(s, "  netmask ", c.netmask);
    push_opt(s, "  broadcast ", c.destination);
    s.append("\n");
    proof {
        assert(s@ =~= start + comp_line(*c));
    }
}

/// Looking a name up in groups made for the names `names` finds its group
/// exactly when it is one of the names.
proof fn lemma_lookup_groups(l: Seq<(Seq<char>, NetworkInterfaceComp)>, names: Seq<Seq<char>>, n: Seq<char>)
    ensures
        lookup(names.map_values(|x: Seq<char>| (x, comps_of(l, x))), n) == if names.contains(n) {
            Some(comps_of(l, n))
        } else {
            None
        },
    decreases names.len(),
{
    let g = names.map_values(|x: Seq<char>| (x, comps_of(l, x)));
    if names.len() > 0 {
        lemma_lookup_groups(l, names.drop_first(), n);
        assert(g.drop_first() =~= names.drop_first().map_values(|x: Seq<char>| (x, comps_of(l, x))));
        if names[0] != n {
            assert(names.contains(n) ==> names.drop_first().contains(n)) by {
                if names.contains(n) {
                    let k = choose|k: int| 0 <= k < names.len() && names[k] == n;
                    assert(names.drop_first()[k - 1] == n);
                }
            }
            assert(names.drop_first().contains(n) ==> names.contains(n)) by {
                if names.drop_first().contains(n) {
                    let k = choose|k: int| 0 <= k < names.drop_first().len() && names.drop_first()[k] == n;
                    assert(names[k + 1] == n);
                }
            }
        } else {
            assert(names.contains(n)) by {
                assert(names[0] == n);
            }
        }
    }
}

/// A name is among the first names of a list exactly when some entry has it.
proof fn lemma_first_names_contains(l: Seq<(Seq<char>, NetworkInterfaceComp)>, n: Seq<char>)
    ensures
        first_names(l).contains(n) <==> exists|j: int| 0 <= j < l.len() && l[j].0 == n,
    decreases l.len(),
{
    if l.len() > 0 {
        let p = l.drop_last();
        lemma_first_names_contains(p, n);
        let r = first_names(p);
        if exists|j: int| 0 <= j < l.len() && l[j].0 == n {
            let j = choose|j: int| 0 <= j < l.len() && l[j].0 == n;
            if j < l.len() - 1 {
                assert(p[j].0 == n);
                let k = choose|k: int| 0 <= k < r.len() && r[k] == n;
                if !r.contains(l.last().0) {
                    assert(r.push(l.last().0)[k] == n);
                }
            } else {
                if !r.contains(l.last().0) {
                    assert(r.push(l.last().0)[r.len() as int] == n);
                }
            }
        }
        if first_names(l).contains(n) {
            if !r.contains(n) {
                assert(l.last().0 == n) by {
                    let k = choose|k: int| 0 <= k < first_names(l).len() && first_names(l)[k] == n;
                    if !r.contains(l.last().0) {
                        if k < r.len() {
                            assert(r[k] == n);
                        }
                    }
                }
                assert(l[l.len() - 1].0 == n);
            } else {
                let j = choose|j: int| 0 <= j < p.len() && p[j].0 == n;
                assert(l[j].0 == n);
            }
        }
    }
}

/// Law of the interface map: looking up a name in the map built from a
/// list of named entries gives exactly the entries of that name, in list
/// order, when the list has the name, and nothing when it does not.
pub proof fn law_lookup_finds_grouped_entries(l: Seq<(Seq<char>, NetworkInterfaceComp)>, n: Seq<char>)
    ensures
        lookup(grouped(l), n) == if exists|j: int| 0 <= j < l.len() && l[j].0 == n {
            Some(comps_of(l, n))
        } else {
            None
        },
{
    lemma_lookup_groups(l, first_names(l), n);
    lemma_first_names_contains(l, n);
}

/// Two IPv6 addresses with the same octets are the same address.
pub proof fn lemma_ipv6_view_eq(a: IPv6Addr, b: IPv6Addr)
    requires
        a@ == b@,
    ensures
        a == b,
{
    broadcast use vstd::array::group_array_axioms;
    assert(a.octets == b.octets);
}

/// Two IPv4 addresses with the same octets are the same address.
pub proof fn lemma_ipv4_view_eq(a: IPv4Addr, b: IPv4Addr)
    requires
        a@ == b@,
    ensures
        a == b,
{
    broadcast use vstd::array::group_array_axioms;
    assert(a.octets == b.octets);
}

/// Two MAC addresses with the same octets are the same address.
pub proof fn lemma_mac_view_eq(a: MacAddr, b: MacAddr)
    requires
        a@ == b@,
    ensures
        a == b,
{
    broadcast use vstd::array::group_array_axioms;
    assert(a.octets == b.octets);
}

} // verus!
