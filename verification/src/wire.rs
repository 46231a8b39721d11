//! Reading fixed-width integers out of byte sequences.

use vstd::prelude::*;

verus! {

/// Big-endian value of the two bytes at `off`.
pub open spec fn be16(s: Seq<u8>, off: int) -> int {
    s[off] * 256 + s[off + 1]
}

/// Big-endian value of the four bytes at `off`.
pub open spec fn be32(s: Seq<u8>, off: int) -> int {
    be16(s, off) * 65536 + be16(s, off + 2)
}

/// Big-endian value of the eight bytes at `off`.
pub open spec fn be64(s: Seq<u8>, off: int) -> int {
    be32(s, off) * 4294967296 + be32(s, off + 4)
}

/// Little-endian value of the two bytes at `off`.
pub open spec fn le16(s: Seq<u8>, off: int) -> int {
    s[off + 1] * 256 + s[off]
}

/// Little-endian value of the four bytes at `off`.
pub open spec fn le32(s: Seq<u8>, off: int) -> int {
    le16(s, off + 2) * 65536 + le16(s, off)
}

/// Reads the big-endian `u16` at `off`.
pub fn read_be_u16(data: &[u8], off: usize) -> (r: u16)
    requires
        off + 2 <= data.len(),
    ensures
        r == be16(data@, off as int),
{
    let hi = data[off] as u16;
    let lo = data[off + 1] as u16;
    hi * 256 + lo
}

/// Reads the big-endian `u32` at `off`.
pub fn read_be_u32(data: &[u8], off: usize) -> (r: u32)
    requires
        off + 4 <= data.len(),
    ensures
        r == be32(data@, off as int),
{
    let hi = read_be_u16(data, off) as u32;
    let lo = read_be_u16(data, off + 2) as u32;
    hi * 65536 + lo
}

/// Reads the big-endian `u64` at `off`.
pub fn read_be_u64(data: &[u8], off: usize) -> (r: u64)
    requires
        off + 8 <= data.len(),
    ensures
        r == be64(data@, off as int),
{
    let hi = read_be_u32(data, off) as u64;
    let lo = read_be_u32(data, off + 4) as u64;
    hi * 4294967296 + lo
}

/// Reads the little-endian `u16` at `off`.
pub fn read_le_u16(data: &[u8], off: usize) -> (r: u16)
    requires
        off + 2 <= data.len(),
    ensures
        r == le16(data@, off as int),
{
    let lo = data[off] as u16;
    let hi = data[off + 1] as u16;
    hi * 256 + lo
}

/// Reads the little-endian `u32` at `off`.
pub fn read_le_u32(data: &[u8], off: usize) -> (r: u32)
    requires
        off + 4 <= data.len(),
    ensures
        r == le32(data@, off as int),
{
    let lo = read_le_u16(data, off) as u32;
    let hi = read_le_u16(data, off + 2) as u32;
    hi * 65536 + lo
}

/// `u16::from_ne_bytes`: the two bytes read as a number in the byte order
/// of the machine that runs the code, which the contract takes to be
/// vstd's `endianness()`.
#[verifier::external_body]
fn u16_from_ne_bytes(b: [u8; 2]) -> (r: u16)
    ensures
        r == host16(b@, 0),
{
    u16::from_ne_bytes(b)
}

/// Whether the machine that runs this code stores integers little-endian.
pub fn host_is_little_endian() -> (r: bool)
    ensures
        r == host_little(),
{
    let b = [1u8, 0u8];
    let v = u16_from_ne_bytes(b);
    proof {
        assert(b@[0] == 1 && b@[1] == 0);
    }
    v == 1
}

/// The two bytes of `x` in the opposite order.
pub open spec fn swap16(x: u16) -> int {
    (x % 256) * 256 + x / 256
}

/// The four bytes of `x` in the opposite order.
pub open spec fn swap32(x: u32) -> int {
    swap16((x % 65536) as u16) * 65536 + swap16((x / 65536) as u16)
}

/// What `u16::from_be` gives for `x` on the executing hardware.
pub open spec fn from_be16(x: u16) -> u16 {
    if vstd::endian::endianness() == vstd::endian::Endian::Little {
        swap16(x) as u16
    } else {
        x
    }
}

/// What `u32::from_be` gives for `x` on the executing hardware.
pub open spec fn from_be32(x: u32) -> u32 {
    if vstd::endian::endianness() == vstd::endian::Endian::Little {
        swap32(x) as u32
    } else {
        x
    }
}

/// Swaps the bytes of `x`.
pub fn swap_u16(x: u16) -> (r: u16)
    ensures
        r == swap16(x),
{
    (x % 256) * 256 + x / 256
}

/// Swaps the bytes of `x`.
pub fn swap_u32(x: u32) -> (r: u32)
    ensures
        r == swap32(x),
{
    let lo = swap_u16((x % 65536) as u16) as u32;
    let hi = swap_u16((x / 65536) as u16) as u32;
    lo * 65536 + hi
}

/// Converts a big-endian `u16` to the machine's order, as `u16::from_be` does.
pub fn u16_from_be(x: u16) -> (r: u16)
    ensures
        r == from_be16(x),
{
    if host_is_little_endian() {
        swap_u16(x)
    } else {
        x
    }
}

/// Converts a big-endian `u32` to the machine's order, as `u32::from_be` does.
pub fn u32_from_be(x: u32) -> (r: u32)
    ensures
        r == from_be32(x),
{
    if host_is_little_endian() {
        swap_u32(x)
    } else {
        x
    }
}

} // verus!

verus! {

/// The machine's own byte order is little-endian.
pub open spec fn host_little() -> bool {
    vstd::endian::endianness() == vstd::endian::Endian::Little
}

/// The two bytes at `off` read in the machine's own byte order.
pub open spec fn host16(s: Seq<u8>, off: int) -> int {
    if host_little() {
        le16(s, off)
    } else {
        be16(s, off)
    }
}

/// The four bytes at `off` read in the machine's own byte order.
pub open spec fn host32(s: Seq<u8>, off: int) -> int {
    if host_little() {
        le32(s, off)
    } else {
        be32(s, off)
    }
}

/// Reads the `u16` at `off` in the machine's own byte order, as
/// `u16::from_ne_bytes` does.
pub fn read_host_u16(data: &[u8], off: usize) -> (r: u16)
    requires
        off + 2 <= data.len(),
    ensures
        r == host16(data@, off as int),
{
    if host_is_little_endian() {
        read_le_u16(data, off)
    } else {
        read_be_u16(data, off)
    }
}

/// Reads the `u32` at `off` in the machine's own byte order, as
/// `u32::from_ne_bytes` does.
pub fn read_host_u32(data: &[u8], off: usize) -> (r: u32)
    requires
        off + 4 <= data.len(),
    ensures
        r == host32(data@, off as int),
{
    if host_is_little_endian() {
        read_le_u32(data, off)
    } else {
        read_be_u32(data, off)
    }
}


/// Law of byte order: converting from big-endian twice gives back the value.
pub proof fn law_from_be_twice(x: u16, y: u32)
    ensures
        from_be16(from_be16(x)) == x,
        from_be32(from_be32(y)) == y,
{
    lemma_swap16_twice(x);
    lemma_swap32_twice(y);
}

/// Swapping the bytes of a `u16` twice gives it back.
proof fn lemma_swap16_twice(x: u16)
    ensures
        swap16(swap16(x) as u16) == x,
{
    assert(((((x % 256) * 256 + x / 256) as u16) % 256) * 256 + (((x % 256) * 256 + x / 256) as u16) / 256 == x)
        by (bit_vector);
}

/// Swapping the bytes of a `u32` twice gives it back.
proof fn lemma_swap32_twice(y: u32)
    ensures
        swap32(swap32(y) as u32) == y,
{
    let lo = (y % 65536) as u16;
    let hi = (y / 65536) as u16;
    let z = swap32(y) as u32;
    assert(swap16(lo) < 65536 && swap16(hi) < 65536) by {
        assert(((lo % 256) * 256 + lo / 256) < 65536) by (bit_vector);
        assert(((hi % 256) * 256 + hi / 256) < 65536) by (bit_vector);
    }
    assert(z % 65536 == swap16(hi) && z / 65536 == swap16(lo)) by (nonlinear_arith)
        requires
            z == swap16(lo) * 65536 + swap16(hi),
            0 <= swap16(lo) < 65536,
            0 <= swap16(hi) < 65536,
    ;
    lemma_swap16_twice(lo);
    lemma_swap16_twice(hi);
    assert(swap16(swap16(hi) as u16) == hi);
    assert(swap32(z) == swap16(swap16(hi) as u16) * 65536 + swap16(swap16(lo) as u16));
    assert(y == hi * 65536 + lo) by (nonlinear_arith)
        requires
            lo == y % 65536,
            hi == y / 65536,
    ;
}

/// Law of byte order: a 16-bit number whose two bytes in memory are `b`
/// (in the machine's order) converts from big-endian to the big-endian
/// reading of `b`, whatever the machine's byte order.
pub proof fn law_from_be16_reads_big_endian(x: u16, b: Seq<u8>)
    requires
        b.len() == 2,
        x == host16(b, 0),
    ensures
        from_be16(x) == be16(b, 0),
{
    let b0 = b[0];
    let b1 = b[1];
    if host_little() {
        assert(x == b1 * 256 + b0);
        assert(((x % 256) * 256 + x / 256) as u16 == b0 * 256 + b1) by (nonlinear_arith)
            requires
                x == b1 * 256 + b0,
                b0 < 256,
                b1 < 256,
        ;
    }
}

/// Law of byte order: a 32-bit number whose four bytes in memory are `b`
/// (in the machine's order) converts from big-endian to the big-endian
/// reading of `b`, whatever the machine's byte order.
pub proof fn law_from_be32_reads_big_endian(x: u32, b: Seq<u8>)
    requires
        b.len() == 4,
        x == host32(b, 0),
    ensures
        from_be32(x) == be32(b, 0),
{
    if host_little() {
        let lo = le16(b, 0);
        let hi = le16(b, 2);
        assert(0 <= lo < 65536 && 0 <= hi < 65536);
        assert(x == hi * 65536 + lo);
        assert(x % 65536 == lo && x / 65536 == hi) by (nonlinear_arith)
            requires
                x == hi * 65536 + lo,
                0 <= lo < 65536,
                0 <= hi < 65536,
        ;
        let lo16 = lo as u16;
        let hi16 = hi as u16;
        assert(swap16(lo16) == be16(b, 0)) by (nonlinear_arith)
            requires
                lo16 == b[1] * 256 + b[0],
                b[0] < 256,
                b[1] < 256,
        ;
        assert(swap16(hi16) == be16(b, 2)) by (nonlinear_arith)
            requires
                hi16 == b[3] * 256 + b[2],
                b[2] < 256,
                b[3] < 256,
        ;
        assert(swap32(x) == be32(b, 0));
        assert(swap32(x) < 0x1_0000_0000) by (nonlinear_arith)
            requires
                swap32(x) == be32(b, 0),
                be32(b, 0) == (b[0] * 256 + b[1]) * 65536 + (b[2] * 256 + b[3]),
                b[0] < 256,
                b[1] < 256,
                b[2] < 256,
                b[3] < 256,
        ;
    }
}

} // verus!
