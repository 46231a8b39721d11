//! The text form of a header: a line with the protocol's name, then one
//! line for each field with its label and its value, the labels padded to
//! one width.

use vstd::prelude::*;
use vstd::string::*;

use crate::addrs::{ipv4_text, ipv6_text, mac_text, IPv4Addr, IPv6Addr, MacAddr};
use crate::text::{decimal, pad_right, push_decimal, push_spaces, spaces};
use crate::wire::{be16, be32, be64, read_be_u16, read_be_u32, read_be_u64};

verus! {

/// How the value of a header field is written.
#[derive(Debug, Clone, Copy, PartialEq, Eq, Structural)]
pub enum FieldKind {
    /// A big-endian unsigned number of `width` bytes (1, 2, 4 or 8), in decimal.
    Number { width: usize },
    /// A six-byte hardware address.
    Mac,
    /// A four-byte IPv4 address.
    IPv4,
    /// A sixteen-byte IPv6 address.
    IPv6,
}

/// A field shown in a header's text: its label, the byte it starts at and
/// how its value is written.
#[derive(Debug, Clone, Copy)]
pub struct FieldFormat {
    pub label: &'static str,
    pub offset: usize,
    pub kind: FieldKind,
}

/// A field format as a value.
pub struct FieldFormatView {
    pub label: Seq<char>,
    pub offset: nat,
    pub kind: FieldKind,
}

impl View for FieldFormat {
    type V = FieldFormatView;

    open spec fn view(&self) -> FieldFormatView {
        FieldFormatView { label: self.label@, offset: self.offset as nat, kind: self.kind }
    }
}

/// The views of a list of field formats.
pub open spec fn format_views(fs: Seq<FieldFormat>) -> Seq<FieldFormatView> {
    fs.map_values(|f: FieldFormat| f@)
}

/// The number of bytes a value of kind `k` takes.
pub open spec fn kind_width(k: FieldKind) -> nat {
    match k {
        FieldKind::Number { width } => width as nat,
        FieldKind::Mac => 6,
        FieldKind::IPv4 => 4,
        FieldKind::IPv6 => 16,
    }
}

/// A number of this width can be read.
pub open spec fn width_ok(width: usize) -> bool {
    width == 1 || width == 2 || width == 4 || width == 8
}

/// Field `f` lies inside a header of `size` bytes, a number is one, two,
/// four or eight bytes wide, and the label's length leaves room for its colon.
pub open spec fn field_fits(f: FieldFormatView, size: nat) -> bool {
    &&& f.kind matches FieldKind::Number { width } ==> width_ok(width)
    &&& f.offset + kind_width(f.kind) <= size
    &&& f.label.len() < usize::MAX
}

/// Every field of `fs` fits in a header of `size` bytes.
pub open spec fn fields_fit(fs: Seq<FieldFormatView>, size: nat) -> bool {
    forall|i: int| 0 <= i < fs.len() ==> field_fits(#[trigger] fs[i], size)
}

/// The text of the value of kind `k` at byte `off` of `b`.
pub open spec fn value_text(k: FieldKind, b: Seq<u8>, off: int) -> Seq<char> {
    match k {
        FieldKind::Number { width } => if width == 1 {
            decimal(b[off] as nat)
        } else if width == 2 {
            decimal(be16(b, off) as nat)
        } else if width == 4 {
            decimal(be32(b, off) as nat)
        } else {
            decimal(be64(b, off) as nat)
        },
        FieldKind::Mac => mac_text(b.subrange(off, off + 6)),
        FieldKind::IPv4 => ipv4_text(b.subrange(off, off + 4)),
        FieldKind::IPv6 => ipv6_text(b.subrange(off, off + 16)),
    }
}

/// The width the labels are padded to: the longest label with its colon,
/// or zero without fields.
pub open spec fn label_width(fs: Seq<FieldFormatView>) -> nat
    decreases fs.len(),
{
    if fs.len() == 0 {
        0
    } else {
        let w = label_width(fs.drop_last());
        let l = fs.last().label.len() + 1;
        if l > w {
            l as nat
        } else {
            w
        }
    }
}

/// One field's line: four spaces, the label and a colon padded to `width`,
/// a space, the value and a line break.
pub open spec fn field_line(label: Seq<char>, value: Seq<char>, width: nat) -> Seq<char> {
    spaces(4) + pad_right(label + seq![':'], width) + seq![' '] + value + seq!['\n']
}

/// The lines of the first `n` fields of `fs`, read from `b`.
pub open spec fn field_lines(fs: Seq<FieldFormatView>, b: Seq<u8>, width: nat, n: int) -> Seq<char>
    decreases n,
{
    if n <= 0 {
        Seq::empty()
    } else {
        field_lines(fs, b, width, n - 1) + field_line(
            fs[n - 1].label,
            value_text(fs[n - 1].kind, b, fs[n - 1].offset as int),
            width,
        )
    }
}

/// The text of the header in `b` of the protocol called `name`, whose
/// fields are `fs`.
pub open spec fn frame_text(name: Seq<char>, fs: Seq<FieldFormatView>, b: Seq<u8>) -> Seq<char> {
    seq!['▼', ' '] + name + seq!['\n'] + field_lines(fs, b, label_width(fs), fs.len() as int)
}

/// How a registered protocol's header is written: its name and its fields.
#[derive(Debug)]
pub struct FrameFormat {
    pub name: String,
    pub fields: Vec<FieldFormat>,
}

/// A frame format as a value.
pub struct FrameFormatView {
    pub name: Seq<char>,
    pub fields: Seq<FieldFormatView>,
}

impl View for FrameFormat {
    type V = FrameFormatView;

    open spec fn view(&self) -> FrameFormatView {
        FrameFormatView { name: self.name@, fields: format_views(self.fields@) }
    }
}

/// A copy of a list of field formats.
pub fn copy_fields(fields: &Vec<FieldFormat>) -> (r: Vec<FieldFormat>)
    ensures
        format_views(r@) == format_views(fields@),
{
    let mut r: Vec<FieldFormat> = Vec::new();
    let mut i: usize = 0;
    while i < fields.len()
        invariant
            0 <= i <= fields@.len(),
            r@ == fields@.take(i as int),
        decreases fields@.len() - i,
    {
        r.push(fields[i]);
        i = i + 1;
        proof {
            assert(r@ =~= fields@.take(i as int));
        }
    }
    proof {
        assert(fields@.take(i as int) =~= fields@);
    }
    r
}

/// Fields that fit in `a` bytes fit in any `b >= a` bytes.
pub proof fn lemma_fields_fit_grow(fs: Seq<FieldFormatView>, a: nat, b: nat)
    requires
        fields_fit(fs, a),
        a <= b,
    ensures
        fields_fit(fs, b),
{
    assert forall|i: int| 0 <= i < fs.len() implies field_fits(#[trigger] fs[i], b) by {
        assert(field_fits(fs[i], a));
    }
}

/// Appends the text of the value of kind `kind` at byte `off` of `b`.
fn push_value(s: &mut String, kind: FieldKind, b: &[u8], off: usize)
    requires
        kind matches FieldKind::Number { width } ==> width_ok(width),
        off + kind_width(kind) <= b@.len(),
    ensures
        final(s)@ == old(s)@ + value_text(kind, b@, off as int),
{
    match kind {
        FieldKind::Number { width } => {
            if width == 1 {
                push_decimal(s, b[off] as u64);
            } else if width == 2 {
                push_decimal(s, read_be_u16(b, off) as u64);
            } else if width == 4 {
                push_decimal(s, read_be_u32(b, off) as u64);
            } else {
                push_decimal(s, read_be_u64(b, off));
            }
        },
        FieldKind::Mac => {
            let t = MacAddr::read_at(b, off).to_string();
            s.append(t.as_str());
        },
        FieldKind::IPv4 => {
            let t = IPv4Addr::read_at(b, off).to_string();
            s.append(t.as_str());
        },
        FieldKind::IPv6 => {
            let t = IPv6Addr::read_at(b, off).to_string();
            s.append(t.as_str());
        },
    }
}

/// The width the labels of `fields` are padded to.
fn compute_label_width(fields: &Vec<FieldFormat>) -> (r: usize)
    requires
        forall|i: int| 0 <= i < fields@.len() ==> (#[trigger] fields@[i]).label@.len() < usize::MAX,
    ensures
        r == label_width(format_views(fields@)),
{
    let ghost fs = format_views(fields@);
    let mut width: usize = 0;
    let mut i: usize = 0;
    while i < fields.len()
        invariant
            0 <= i <= fields@.len(),
            fs == format_views(fields@),
            forall|k: int| 0 <= k < fields@.len() ==> (#[trigger] fields@[k]).label@.len() < usize::MAX,
            width == label_width(fs.take(i as int)),
        decreases fields@.len() - i,
    {
        let l = fields[i].label.unicode_len() + 1;
        proof {
            assert(fs.take(i + 1).drop_last() =~= fs.take(i as int));
        }
        if l > width {
            width = l;
        }
        i = i + 1;
    }
    proof {
        assert(fs.take(i as int) =~= fs);
    }
    width
}

/// The text of the header in `bytes` of the protocol called `name`, whose
/// fields are `fields`.
pub fn render_frame(name: &str, fields: &Vec<FieldFormat>, bytes: &[u8]) -> (r: String)
    requires
        fields_fit(format_views(fields@), bytes@.len()),
    ensures
        r@ == frame_text(name@, format_views(fields@), bytes@),
{
    let ghost fs = format_views(fields@);
    proof {
        assert forall|i: int| 0 <= i < fields@.len() implies (#[trigger] fields@[i]).label@.len() < usize::MAX by {
            assert(field_fits(fs[i], bytes@.len()));
        }
    }
    let width = compute_label_width(fields);
    let mut s = String::new();
    proof {
        reveal_strlit("▼ ");
        reveal_strlit("\n");
    }
    s.append("▼ ");
    s.append(name);
    s.append("\n");
    let ghost head = s@;
    let mut i: usize = 0;
    while i < fields.len()
        invariant
            0 <= i <= fields@.len(),
            fs == format_views(fields@),
            fields_fit(fs, bytes@.len()),
            width == label_width(fs),
            s@ == head + field_lines(fs, bytes@, width as nat, i as int),
        decreases fields@.len() - i,
    {
        let f = fields[i];
        proof {
            assert(field_fits(fs[i as int], bytes@.len()));
            reveal_strlit("    ");
            reveal_strlit(":");
            reveal_strlit(" ");
            reveal_strlit("\n");
        }
        let ghost before = s@;
        s.append("    ");
        s.append(f.label);
        s.append(":");
        let l = f.label.unicode_len() + 1;
        if l < width {
            push_spaces(&mut s, (width - l) as u64);
        }
        s.append(" ");
        push_value(&mut s, f.kind, bytes, f.offset);
        s.append("\n");
        proof {
            assert(spaces(4) =~= seq![' ', ' ', ' ', ' ']);
            assert(s@ =~= before + field_line(fs[i as int].label, value_text(f.kind, bytes@, f.offset as int), width as nat));
        }
        i = i + 1;
    }
    s
}

/// The lines of the first `n` fields of `fs` with the value texts `values`.
pub open spec fn value_lines(fs: Seq<FieldFormatView>, values: Seq<Seq<char>>, width: nat, n: int) -> Seq<char>
    decreases n,
{
    if n <= 0 {
        Seq::empty()
    } else {
        value_lines(fs, values, width, n - 1) + field_line(fs[n - 1].label, values[n - 1], width)
    }
}

/// The text of a header of the protocol called `name` whose fields `fs`
/// have the value texts `values`.
pub open spec fn text_of(name: Seq<char>, fs: Seq<FieldFormatView>, values: Seq<Seq<char>>) -> Seq<char> {
    seq!['▼', ' '] + name + seq!['\n'] + value_lines(fs, values, label_width(fs), fs.len() as int)
}

/// Among the fields `fs` with the value texts `values`, a line is labelled
/// `label` and shows `text`.
pub open spec fn shows_line(fs: Seq<FieldFormatView>, values: Seq<Seq<char>>, label: Seq<char>, text: Seq<char>) -> bool {
    exists|i: int|
        #![trigger fs[i]]
        0 <= i < fs.len() && i < values.len() && fs[i].label == label && values[i] == text
}

/// The value texts of the fields `fs` read from `b`.
pub open spec fn values_of(fs: Seq<FieldFormatView>, b: Seq<u8>) -> Seq<Seq<char>> {
    Seq::new(fs.len(), |i: int| value_text(fs[i].kind, b, fs[i].offset as int))
}

/// The text of a header read from bytes is the text of the values read
/// from those bytes.
pub proof fn lemma_frame_text_is_text_of_values(name: Seq<char>, fs: Seq<FieldFormatView>, b: Seq<u8>)
    ensures
        frame_text(name, fs, b) == text_of(name, fs, values_of(fs, b)),
{
    lemma_lines_agree(fs, b, label_width(fs), fs.len() as int);
}

proof fn lemma_lines_agree(fs: Seq<FieldFormatView>, b: Seq<u8>, width: nat, n: int)
    requires
        n <= fs.len(),
    ensures
        field_lines(fs, b, width, n) == value_lines(fs, values_of(fs, b), width, n),
    decreases n,
{
    if n > 0 {
        lemma_lines_agree(fs, b, width, n - 1);
    }
}

/// The text of a header of the protocol called `name` whose fields
/// `fields` have the value texts `values`.
pub fn render_values(name: &str, fields: &Vec<FieldFormat>, values: &Vec<String>) -> (r: String)
    requires
        values@.len() == fields@.len(),
        forall|i: int| 0 <= i < fields@.len() ==> (#[trigger] fields@[i]).label@.len() < usize::MAX,
    ensures
        r@ == text_of(name@, format_views(fields@), values@.map_values(|v: String| v@)),
{
    let ghost fs = format_views(fields@);
    let ghost vs = values@.map_values(|v: String| v@);
    let width = compute_label_width(fields);
    let mut s = String::new();
    proof {
        reveal_strlit("▼ ");
        reveal_strlit("\n");
    }
    s.append("▼ ");
    s.append(name);
    s.append("\n");
    let ghost head = s@;
    let mut i: usize = 0;
    while i < fields.len()
        invariant
            0 <= i <= fields@.len(),
            values@.len() == fields@.len(),
            fs == format_views(fields@),
            vs == values@.map_values(|v: String| v@),
            width == label_width(fs),
            forall|k: int| 0 <= k < fields@.len() ==> (#[trigger] fields@[k]).label@.len() < usize::MAX,
            s@ == head + value_lines(fs, vs, width as nat, i as int),
        decreases fields@.len() - i,
    {
        let f = fields[i];
        proof {
            reveal_strlit("    ");
            reveal_strlit(":");
            reveal_strlit(" ");
            reveal_strlit("\n");
        }
        let ghost before = s@;
        s.append("    ");
        s.append(f.label);
        s.append(":");
        let l = f.label.unicode_len() + 1;
        if l < width {
            push_spaces(&mut s, (width - l) as u64);
        }
        s.append(" ");
        s.append(values[i].as_str());
        s.append("\n");
        proof {
            assert(spaces(4) =~= seq![' ', ' ', ' ', ' ']);
            assert(vs[i as int] == values@[i as int]@);
            assert(s@ =~= before + field_line(fs[i as int].label, vs[i as int], width as nat));
        }
        i = i + 1;
    }
    s
}

/// The fields of a list that fits in some header have labels short enough
/// for their colon.
pub proof fn lemma_labels_fit(fields: Seq<FieldFormat>, size: nat)
    requires
        fields_fit(format_views(fields), size),
    ensures
        forall|i: int| 0 <= i < fields.len() ==> (#[trigger] fields[i]).label@.len() < usize::MAX,
{
    assert forall|i: int| 0 <= i < fields.len() implies (#[trigger] fields[i]).label@.len() < usize::MAX by {
        assert(field_fits(format_views(fields)[i], size));
    }
}

} // verus!
