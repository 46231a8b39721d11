//! Splitting a BPF capture buffer into the packets it holds.

use vstd::prelude::*;

use bytes::Bytes;

use crate::bpf::{BPFFrame, BPF_FRAME_LEN};
use crate::buffer::{bytes_as_slice, bytes_clone, bytes_len, bytes_slice, bytes_view};
use crate::wire::{host16, host32, read_host_u16, read_host_u32};

verus! {

/// The alignment of BPF records in a capture buffer (`BPF_ALIGNMENT` of Darwin).
pub const BPF_ALIGNMENT: usize = 4;

/// `n` rounded up to a multiple of [`BPF_ALIGNMENT`].
pub open spec fn align4(n: int) -> int {
    ((n + 3) / 4) * 4
}

/// Rounds `length` up to a multiple of [`BPF_ALIGNMENT`].
pub fn bpf_wordalign(length: usize) -> (r: usize)
    requires
        length <= usize::MAX - (BPF_ALIGNMENT - 1),
    ensures
        r == align4(length as int),
        r % 4 == 0,
        length <= r < length + 4,
{
    let x = length + (BPF_ALIGNMENT - 1);
    let r = x & !(BPF_ALIGNMENT - 1);
    assert(x & !3usize == x - x % 4) by (bit_vector);
    r
}

/// One captured packet.
pub struct RawPacket(pub Bytes);

impl RawPacket {
    /// The packet's bytes.
    pub fn data(&self) -> (r: &[u8])
        ensures
            r@ == bytes_view(self.0),
    {
        bytes_as_slice(&self.0)
    }

    /// Another handle on the packet's bytes.
    pub fn bytes(&self) -> (r: Bytes)
        ensures
            bytes_view(r) == bytes_view(self.0),
    {
        bytes_clone(&self.0)
    }
}

/// The bytes of one read from a capture device: a sequence of BPF records.
pub struct CaptureBatch(Bytes);

impl CaptureBatch {
    /// The batch read into `buf`.
    pub fn new(buf: Bytes) -> (r: Self)
        ensures
            r.spec_bytes() == bytes_view(buf),
    {
        CaptureBatch(buf)
    }

    /// The batch's bytes.
    pub closed spec fn spec_bytes(&self) -> Seq<u8> {
        bytes_view(self.0)
    }

    /// A walk through the packets of the batch, from its first record.
    pub fn into_iter(self) -> (r: CaptureIter)
        ensures
            r@ == (self.spec_bytes(), 0nat),
            r.origin() == 0,
            r.steps() == 0,
    {
        CaptureIter { data: self.0, offset: 0, origin: Ghost(0), steps: Ghost(0) }
    }
}

/// A walk through the records of a capture buffer.
pub struct CaptureIter {
    data: Bytes,
    offset: usize,
    origin: Ghost<nat>,
    steps: Ghost<nat>,
}

impl View for CaptureIter {
    type V = (Seq<u8>, nat);

    closed spec fn view(&self) -> (Seq<u8>, nat) {
        (bytes_view(self.data), self.offset as nat)
    }
}

/// One step of the walk over buffer `data` from `offset`: the packet found
/// there and the offset of the next record, or nothing and the same offset.
///
/// A record needs a whole header; its header length must cover the header
/// and its captured bytes must lie inside the buffer. The packet is the
/// captured bytes after the record's header, and the next record starts at
/// the header and packet lengths rounded up to the alignment, or at the end
/// of the buffer when that offset does not fit in a `usize`.
pub open spec fn spec_capture_step(data: Seq<u8>, offset: nat) -> (Option<Seq<u8>>, nat) {
    if offset > data.len() || data.len() - offset < BPF_FRAME_LEN {
        (None, offset)
    } else {
        let header_len = host16(data, offset + 16int);
        let captured_len = host32(data, offset + 8int);
        let start = offset + header_len;
        let end = start + captured_len;
        if header_len < BPF_FRAME_LEN || end > data.len() {
            (None, offset)
        } else {
            let next = offset + align4(header_len + captured_len);
            (Some(data.subrange(start, end)), if next > usize::MAX { data.len() } else { next as nat })
        }
    }
}

/// One step of the walk over `data` from `offset`, as [`spec_capture_step`]
/// describes: the packet found, if any, and the next offset.
fn capture_step(data: &Bytes, offset: usize) -> (r: (Option<RawPacket>, usize))
    ensures
        ({
            let (pkt, off) = spec_capture_step(bytes_view(*data), offset as nat);
            &&& r.1 == off
            &&& match r.0 {
                Some(p) => pkt == Some(bytes_view(p.0)),
                None => pkt is None,
            }
        }),
{
    let len = bytes_len(data);
    if offset > len {
        return (None, offset);
    }
    let remaining = len - offset;
    if remaining < BPF_FRAME_LEN {
        return (None, offset);
    }
    let all = bytes_as_slice(data);
    let rest = &all[offset..len];
    let hdr = match BPFFrame::parse(rest) {
        Ok(h) => h,
        Err(_) => return (None, offset),
    };
    proof {
        let d = bytes_view(*data);
        let o = offset as int;
        assert(rest@ =~= d.subrange(o, len as int));
        assert(host16(rest@, 16) == host16(d, o + 16));
        assert(host32(rest@, 8) == host32(d, o + 8));
    }
    let header_len = hdr.bh_hdrlen as usize;
    let captured_len = hdr.bh_caplen as usize;
    if header_len < BPF_FRAME_LEN {
        return (None, offset);
    }
    let packet_start = match offset.checked_add(header_len) {
        Some(s) => s,
        None => return (None, offset),
    };
    let packet_end = match packet_start.checked_add(captured_len) {
        Some(e) => e,
        None => return (None, offset),
    };
    if packet_end > len {
        return (None, offset);
    }
    let packet = bytes_slice(data, packet_start, packet_end);
    let unaligned_len = header_len + captured_len;
    if unaligned_len > usize::MAX - (BPF_ALIGNMENT - 1) {
        return (Some(RawPacket(packet)), len);
    }
    let record_len = bpf_wordalign(unaligned_len);
    let next = match offset.checked_add(record_len) {
        Some(o) => o,
        None => len,
    };
    (Some(RawPacket(packet)), next)
}

impl CaptureIter {
    /// The offset is where the steps taken so far lead from where the walk
    /// started.
    #[verifier::type_invariant]
    closed spec fn inv(self) -> bool {
        self.offset == capture_offset(bytes_view(self.data), self.origin@, self.steps@)
    }

    /// Where the walk started.
    pub closed spec fn origin(&self) -> nat {
        self.origin@
    }

    /// How many steps the walk has taken.
    pub closed spec fn steps(&self) -> nat {
        self.steps@
    }

    /// The next packet of the buffer, as [`spec_capture_step`] describes:
    /// what the walk from where it started finds at its next step.
    pub fn next(&mut self) -> (r: Option<RawPacket>)
        ensures
            ({
                let (pkt, off) = spec_capture_step(old(self)@.0, old(self)@.1);
                &&& final(self)@.0 == old(self)@.0
                &&& final(self)@.1 == off
                &&& match r {
                    Some(p) => pkt == Some(bytes_view(p.0)),
                    None => pkt is None,
                }
            }),
            final(self).origin() == old(self).origin(),
            final(self).steps() == old(self).steps() + 1,
            pkt_view(r) == capture_item(old(self)@.0, old(self).origin(), old(self).steps()),
    {
        proof {
            use_type_invariant(&*self);
        }
        let (r, next) = capture_step(&self.data, self.offset);
        let data = bytes_clone(&self.data);
        let origin = self.origin;
        let steps = Ghost((self.steps@ + 1) as nat);
        *self = CaptureIter { data, offset: next, origin, steps };
        r
    }
}

/// A packet found by a walk, as its bytes.
pub open spec fn pkt_view(r: Option<RawPacket>) -> Option<Seq<u8>> {
    match r {
        Some(p) => Some(bytes_view(p.0)),
        None => None,
    }
}

/// The size of a record header as Darwin's capture device writes it: a
/// `struct bpf_hdr`, padded to its four-byte alignment.
pub const BPF_HDR_LEN: usize = 20;

/// One record of a capture buffer: where its packet lies in the buffer, and
/// the captured length, original length and header length its header states.
#[derive(Debug, Clone, Copy, PartialEq, Eq, Structural)]
pub struct BpfRecord {
    pub start: usize,
    pub end: usize,
    pub captured: u32,
    pub original: u32,
    pub header_len: u16,
}

/// What a walk through the records of a buffer found: the records, in
/// order, and, when the walk stopped at a record whose packet runs past the
/// end of the buffer, the offset where that packet would end.
#[derive(Debug)]
pub struct BpfScan {
    pub records: Vec<BpfRecord>,
    pub overrun: Option<usize>,
}

/// The records of `buf` from the record at `offset` on.
///
/// A record needs a whole header, and a header length and captured length
/// that are not zero; its packet follows its header. A packet that ends
/// past the buffer stops the walk and is reported; one whose end does not
/// fit in a `usize` stops it silently. The next record starts after the
/// header and the packet, rounded up to the alignment, and the walk stops
/// when that is past the buffer or the rounding does not fit in a `usize`.
pub open spec fn spec_scan(buf: Seq<u8>, offset: int) -> (Seq<BpfRecord>, Option<int>)
    decreases buf.len() - offset,
{
    if offset < 0 || offset + BPF_HDR_LEN > buf.len() {
        (Seq::empty(), None)
    } else {
        let hl = host16(buf, offset + 16);
        let cl = host32(buf, offset + 8);
        let end = offset + hl + cl;
        if hl == 0 || cl == 0 || end > usize::MAX {
            (Seq::empty(), None)
        } else if end > buf.len() {
            (Seq::empty(), Some(end))
        } else {
            let rec = BpfRecord {
                start: (offset + hl) as usize,
                end: end as usize,
                captured: cl as u32,
                original: host32(buf, offset + 12) as u32,
                header_len: hl as u16,
            };
            if hl + cl > usize::MAX - (BPF_ALIGNMENT - 1) || offset + align4(hl + cl) > buf.len() {
                (seq![rec], None)
            } else {
                let rest = spec_scan(buf, offset + align4(hl + cl));
                (seq![rec] + rest.0, rest.1)
            }
        }
    }
}

/// The overrun of a scan, as an integer.
pub open spec fn overrun_view(o: Option<usize>) -> Option<int> {
    match o {
        Some(e) => Some(e as int),
        None => None,
    }
}

/// Walks the records of a capture buffer, as [`spec_scan`] describes from
/// the first byte.
pub fn bpf_records(buf: &[u8]) -> (r: BpfScan)
    ensures
        r.records@ == spec_scan(buf@, 0).0,
        overrun_view(r.overrun) == spec_scan(buf@, 0).1,
{
    let mut records: Vec<BpfRecord> = Vec::new();
    let mut offset: usize = 0;
    let ghost all = spec_scan(buf@, 0);
    loop
        invariant
            offset <= buf@.len(),
            records@ + spec_scan(buf@, offset as int).0 == all.0,
            spec_scan(buf@, offset as int).1 == all.1,
            all == spec_scan(buf@, 0),
        decreases buf@.len() - offset,
    {
        let ghost here = spec_scan(buf@, offset as int);
        if buf.len() - offset < BPF_HDR_LEN {
            proof {
                assert(records@ =~= all.0);
            }
            return BpfScan { records, overrun: None };
        }
        let hl = read_host_u16(buf, offset + 16) as usize;
        let cl = read_host_u32(buf, offset + 8) as usize;
        let dl = read_host_u32(buf, offset + 12);
        if hl == 0 || cl == 0 {
            proof {
                assert(records@ =~= all.0);
            }
            return BpfScan { records, overrun: None };
        }
        let start = match offset.checked_add(hl) {
            Some(x) => x,
            None => {
                proof {
                    assert(records@ =~= all.0);
                }
                return BpfScan { records, overrun: None };
            },
        };
        let end = match start.checked_add(cl) {
            Some(x) => x,
            None => {
                proof {
                    assert(records@ =~= all.0);
                }
                return BpfScan { records, overrun: None };
            },
        };
        if end > buf.len() {
            proof {
                assert(records@ =~= all.0);
            }
            return BpfScan { records, overrun: Some(end) };
        }
        let rec = BpfRecord { start, end, captured: cl as u32, original: dl, header_len: hl as u16 };
        let ghost before = records@;
        records.push(rec);
        proof {
            assert(here.0[0] == rec);
            assert(records@ == before.push(rec));
        }
        let len = hl + cl;
        if len > usize::MAX - (BPF_ALIGNMENT - 1) {
            proof {
                assert(records@ =~= all.0);
            }
            return BpfScan { records, overrun: None };
        }
        let record_len = bpf_wordalign(len);
        let next = match offset.checked_add(record_len) {
            Some(x) => x,
            None => {
                proof {
                    assert(records@ =~= all.0);
                }
                return BpfScan { records, overrun: None };
            },
        };
        if next > buf.len() {
            proof {
                assert(records@ =~= all.0);
            }
            return BpfScan { records, overrun: None };
        }
        proof {
            let rest = spec_scan(buf@, next as int);
            assert(here == (seq![rec] + rest.0, rest.1));
            assert(records@ + rest.0 =~= before + here.0);
        }
        offset = next;
    }
}

/// Law of the record walk: every packet it finds lies after its record's
/// header and inside the buffer, and the packets come in buffer order
/// without overlapping; a reported overrun lies past the buffer.
pub proof fn law_scan_records_in_order(buf: Seq<u8>, offset: int)
    requires
        0 <= offset,
    ensures
        ({
            let (recs, over) = spec_scan(buf, offset);
            &&& forall|i: int| 0 <= i < recs.len() ==> offset < (#[trigger] recs[i]).start < recs[i].end <= buf.len()
            &&& forall|i: int| 0 <= i < recs.len() ==> (#[trigger] recs[i]).start + recs[i].captured == recs[i].end
            &&& forall|i: int, j: int| 0 <= i < j < recs.len() ==> (#[trigger] recs[i]).end <= (#[trigger] recs[j]).start
            &&& over matches Some(e) ==> e > buf.len()
        }),
    decreases buf.len() - offset,
{
    let (recs, over) = spec_scan(buf, offset);
    if offset + BPF_HDR_LEN <= buf.len() {
        let hl = host16(buf, offset + 16);
        let cl = host32(buf, offset + 8);
        let end = offset + hl + cl;
        if hl != 0 && cl != 0 && end <= usize::MAX && end <= buf.len() {
            if !(hl + cl > usize::MAX - (BPF_ALIGNMENT - 1) || offset + align4(hl + cl) > buf.len()) {
                let next = offset + align4(hl + cl);
                law_scan_records_in_order(buf, next);
                let rest = spec_scan(buf, next);
                assert(recs == seq![recs[0]] + rest.0);
                assert forall|i: int| 0 <= i < recs.len() implies offset < (#[trigger] recs[i]).start < recs[i].end
                    <= buf.len() by {
                    if i > 0 {
                        assert(recs[i] == rest.0[i - 1]);
                    }
                }
                assert forall|i: int| 0 <= i < recs.len() implies (#[trigger] recs[i]).start + recs[i].captured
                    == recs[i].end by {
                    if i > 0 {
                        assert(recs[i] == rest.0[i - 1]);
                    }
                }
                assert forall|i: int, j: int| 0 <= i < j < recs.len() implies (#[trigger] recs[i]).end <= (
                #[trigger] recs[j]).start by {
                    assert(recs[j] == rest.0[j - 1]);
                    if i > 0 {
                        assert(recs[i] == rest.0[i - 1]);
                    }
                }
            }
        }
    }
}

/// What one attempt to read a batch from a capture device that does not
/// block gave.
#[derive(Debug, Clone, Copy, PartialEq, Eq, Structural)]
pub enum ReadOutcome {
    /// The read filled the first `len` bytes of the buffer.
    Read { len: usize },
    /// The read failed with an error other than "would block".
    Failed,
    /// The device turned out to have nothing to read.
    WouldBlock,
}

/// What a batch reader does after a read attempt.
#[derive(Debug, Clone, Copy, PartialEq, Eq, Structural)]
pub enum BatchStep {
    /// Hand out the first `len` bytes of the buffer as a batch.
    Deliver { len: usize },
    /// Give up with the read's error.
    Fail,
    /// Wait until the device is readable again and retry.
    WaitAgain,
}

/// The decision after a read attempt: a read delivers what it read, an
/// error ends the wait, and a read that would block waits again.
pub fn next_batch_step(outcome: ReadOutcome) -> (r: BatchStep)
    ensures
        match outcome {
            ReadOutcome::Read { len } => r == BatchStep::Deliver { len },
            ReadOutcome::Failed => r == BatchStep::Fail,
            ReadOutcome::WouldBlock => r == BatchStep::WaitAgain,
        },
{
    match outcome {
        ReadOutcome::Read { len } => BatchStep::Deliver { len },
        ReadOutcome::Failed => BatchStep::Fail,
        ReadOutcome::WouldBlock => BatchStep::WaitAgain,
    }
}

/// How a finished batch task of a capture loop ended.
#[derive(Debug, Clone, Copy, PartialEq, Eq, Structural)]
pub enum TaskOutcome {
    /// The task's work succeeded.
    Succeeded,
    /// The task's work returned an error.
    WorkFailed,
    /// The task could not be joined: it panicked or was cancelled.
    JoinFailed,
}

/// What a capture loop does after collecting a finished task.
#[derive(Debug, Clone, Copy, PartialEq, Eq, Structural)]
pub enum LoopStep {
    /// Go on with the next finished task or the next batch.
    Continue,
    /// Stop with the work's error.
    StopWorker,
    /// Stop with the join error.
    StopJoin,
}

/// The decision after collecting a finished task: the loop goes on only
/// when the task succeeded, and otherwise stops with its error.
pub fn run_loop_step(outcome: TaskOutcome) -> (r: LoopStep)
    ensures
        match outcome {
            TaskOutcome::Succeeded => r == LoopStep::Continue,
            TaskOutcome::WorkFailed => r == LoopStep::StopWorker,
            TaskOutcome::JoinFailed => r == LoopStep::StopJoin,
        },
{
    match outcome {
        TaskOutcome::Succeeded => LoopStep::Continue,
        TaskOutcome::WorkFailed => LoopStep::StopWorker,
        TaskOutcome::JoinFailed => LoopStep::StopJoin,
    }
}

/// The state of a capture handle, as a type.
pub trait State {}

/// A capture handle bound to an interface.
pub struct Active;

/// A capture handle not yet bound to an interface.
pub struct Inactive;

impl State for Active {}

impl State for Inactive {}


/// Law of the capture walk: each packet found lies inside the buffer after
/// a full record header, and the walk moves forward past it; when no packet
/// is found, the walk stays where it is.
pub proof fn law_capture_progress(data: Seq<u8>, offset: nat)
    ensures
        ({
            let (pkt, next) = spec_capture_step(data, offset);
            &&& pkt is None ==> next == offset
            &&& pkt matches Some(p) ==> {
                &&& next >= offset + BPF_FRAME_LEN
                &&& p.len() <= data.len() - offset - BPF_FRAME_LEN
                &&& host16(data, offset + 16int) >= BPF_FRAME_LEN
                &&& offset + host16(data, offset + 16int) + p.len() <= data.len()
                &&& p == data.subrange(
                    offset + host16(data, offset + 16int),
                    offset + host16(data, offset + 16int) + p.len(),
                )
            }
        }),
{
    let (pkt, next) = spec_capture_step(data, offset);
    if let Some(p) = pkt {
        let header_len = host16(data, offset + 16int);
        let captured_len = host32(data, offset + 8int);
        assert(p.len() == captured_len);
        assert(align4(header_len + captured_len) >= header_len + captured_len);
    }
}

/// The offset a capture walk over `data` from `offset` has reached after
/// `n` steps.
pub open spec fn capture_offset(data: Seq<u8>, offset: nat, n: nat) -> nat
    decreases n,
{
    if n == 0 {
        offset
    } else {
        spec_capture_step(data, capture_offset(data, offset, (n - 1) as nat)).1
    }
}

/// What a capture walk over `data` from `offset` finds at its step `n`,
/// counting from zero.
pub open spec fn capture_item(data: Seq<u8>, offset: nat, n: nat) -> Option<Seq<u8>> {
    spec_capture_step(data, capture_offset(data, offset, n)).0
}

/// A walk that finds a packet at step `k` has moved at least a record
/// header per step.
proof fn lemma_capture_offset_grows(data: Seq<u8>, k: nat)
    ensures
        capture_item(data, 0, k) is Some ==> capture_offset(data, 0, k) >= k * BPF_FRAME_LEN,
    decreases k,
{
    if k > 0 {
        let prev = capture_offset(data, 0, (k - 1) as nat);
        lemma_capture_offset_grows(data, (k - 1) as nat);
        law_capture_progress(data, prev);
        if capture_item(data, 0, (k - 1) as nat) is None {
            assert(capture_offset(data, 0, k) == prev);
        }
    }
}

/// Law of the capture walk: from the start of a buffer it finds at most
/// one packet for each whole record header the buffer could hold, and once
/// it finds nothing it finds nothing ever after.
pub proof fn law_capture_count(data: Seq<u8>, n: nat)
    ensures
        n >= (data.len() as int) / (BPF_FRAME_LEN as int) ==> capture_item(data, 0, n) is None,
        capture_item(data, 0, n) is None ==> capture_item(data, 0, n + 1) is None,
{
    lemma_capture_offset_grows(data, n);
    let off = capture_offset(data, 0, n);
    if capture_item(data, 0, n) is Some && n >= (data.len() as int) / (BPF_FRAME_LEN as int) {
        assert(off + BPF_FRAME_LEN <= data.len());
        let len = data.len() as int;
        let nn = n as int;
        assert(false) by (nonlinear_arith)
            requires
                nn >= len / 18,
                nn * 18 + 18 <= len,
                len >= 0,
        ;
    }
    if capture_item(data, 0, n) is None {
        assert(capture_offset(data, 0, n + 1) == off);
    }
}

} // verus!
