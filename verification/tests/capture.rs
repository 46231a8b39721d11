use bytes::Bytes;
use rat::bpf::{BPFFrame, BPF_FRAME_LEN};
use rat::capture::{
    bpf_records, bpf_wordalign, next_batch_step, run_loop_step, BatchStep, BpfRecord, CaptureBatch, LoopStep, RawPacket,
    ReadOutcome, TaskOutcome,
};

fn record(out: &mut Vec<u8>, hdrlen: u16, payload: &[u8]) {
    let start = out.len();
    out.extend_from_slice(&7i32.to_ne_bytes());
    out.extend_from_slice(&9i32.to_ne_bytes());
    out.extend_from_slice(&(payload.len() as u32).to_ne_bytes());
    out.extend_from_slice(&(payload.len() as u32 + 100).to_ne_bytes());
    out.extend_from_slice(&hdrlen.to_ne_bytes());
    while out.len() < start + hdrlen as usize {
        out.push(0);
    }
    out.extend_from_slice(payload);
    while (out.len() - start) % 4 != 0 {
        out.push(0xee);
    }
}

#[test]
fn size_of_bpf_frame() {}

#[test]
fn wordalign_rounds_up_to_four() {
    assert_eq!(bpf_wordalign(0), 0);
    assert_eq!(bpf_wordalign(1), 4);
    assert_eq!(bpf_wordalign(18), 20);
    assert_eq!(bpf_wordalign(20), 20);
    assert_eq!(bpf_wordalign(23), 24);
}

#[test]
fn bpf_header_is_read_in_host_order() {
    let mut buf = Vec::new();
    record(&mut buf, 18, &[1, 2, 3]);
    let h = BPFFrame::parse(&buf).unwrap();
    assert_eq!(h.bh_tstamp.tv_sec, 7);
    assert_eq!(h.bh_tstamp.tv_usec, 9);
    assert_eq!(h.bh_caplen, 3);
    assert_eq!(h.bh_datalen, 103);
    assert_eq!(h.bh_hdrlen, 18);
    assert_eq!(BPF_FRAME_LEN, 18);
}

#[test]
fn batch_yields_each_record() {
    let mut buf = Vec::new();
    record(&mut buf, 18, &[1, 2, 3]);
    record(&mut buf, 20, &[4, 5, 6, 7, 8]);
    record(&mut buf, 18, &[]);
    let mut it = CaptureBatch::new(Bytes::from(buf)).into_iter();
    let p1: RawPacket = it.next().unwrap();
    assert_eq!(p1.data(), &[1, 2, 3]);
    let p2 = it.next().unwrap();
    assert_eq!(p2.data(), &[4, 5, 6, 7, 8]);
    assert_eq!(&p2.bytes()[..], &[4, 5, 6, 7, 8]);
    let p3 = it.next().unwrap();
    assert!(p3.data().is_empty());
    assert!(it.next().is_none());
    assert!(it.next().is_none());
}

#[test]
fn truncated_or_bad_records_stop_the_walk() {
    // A captured length past the end of the buffer.
    let mut buf = Vec::new();
    record(&mut buf, 18, &[1, 2, 3, 4]);
    buf.truncate(20);
    let mut it = CaptureBatch::new(Bytes::from(buf)).into_iter();
    assert!(it.next().is_none());

    // A header length shorter than the header.
    let mut buf = Vec::new();
    record(&mut buf, 18, &[1]);
    buf[16..18].copy_from_slice(&10u16.to_ne_bytes());
    let mut it = CaptureBatch::new(Bytes::from(buf)).into_iter();
    assert!(it.next().is_none());

    // Too few bytes for a header.
    let mut it = CaptureBatch::new(Bytes::from(vec![0u8; 17])).into_iter();
    assert!(it.next().is_none());
}

#[test]
fn records_of_a_buffer_in_order() {
    let mut buf = Vec::new();
    record(&mut buf, 20, &[1, 2, 3, 4, 5]);
    record(&mut buf, 20, &[6, 7, 8, 9]);
    assert_eq!(buf.len(), 52);
    let scan = bpf_records(&buf);
    assert_eq!(
        scan.records,
        vec![
            BpfRecord { start: 20, end: 25, captured: 5, original: 105, header_len: 20 },
            BpfRecord { start: 48, end: 52, captured: 4, original: 104, header_len: 20 },
        ]
    );
    assert_eq!(scan.overrun, None);
    assert_eq!(&buf[20..25], &[1, 2, 3, 4, 5]);
}

#[test]
fn record_past_the_buffer_is_reported() {
    let mut buf = Vec::new();
    record(&mut buf, 20, &[1, 2, 3]);
    let mut second = Vec::new();
    record(&mut second, 20, &[9; 8]);
    // Claim 100 captured bytes where only 8 follow.
    second[8..12].copy_from_slice(&100u32.to_ne_bytes());
    buf.extend_from_slice(&second);
    let scan = bpf_records(&buf);
    assert_eq!(scan.records.len(), 1);
    assert_eq!(scan.overrun, Some(24 + 20 + 100));
}

#[test]
fn zero_lengths_end_the_records() {
    let mut buf = Vec::new();
    record(&mut buf, 20, &[]);
    record(&mut buf, 20, &[1]);
    let scan = bpf_records(&buf);
    assert!(scan.records.is_empty());
    assert_eq!(scan.overrun, None);
    assert!(bpf_records(&[0u8; 19]).records.is_empty());
}

#[test]
fn batch_reader_decisions() {
    assert_eq!(next_batch_step(ReadOutcome::Read { len: 1500 }), BatchStep::Deliver { len: 1500 });
    assert_eq!(next_batch_step(ReadOutcome::Failed), BatchStep::Fail);
    assert_eq!(next_batch_step(ReadOutcome::WouldBlock), BatchStep::WaitAgain);
    assert_eq!(run_loop_step(TaskOutcome::Succeeded), LoopStep::Continue);
    assert_eq!(run_loop_step(TaskOutcome::WorkFailed), LoopStep::StopWorker);
    assert_eq!(run_loop_step(TaskOutcome::JoinFailed), LoopStep::StopJoin);
}

#[test]
fn packets_at_most_one_per_record_header() {
    let mut buf = Vec::new();
    record(&mut buf, 18, &[1]);
    record(&mut buf, 18, &[2, 3]);
    record(&mut buf, 20, &[4, 5, 6]);
    let mut it = CaptureBatch::new(Bytes::from(buf.clone())).into_iter();
    let mut count = 0;
    while it.next().is_some() {
        count += 1;
    }
    assert_eq!(count, 3);
    assert!(count <= buf.len() / BPF_FRAME_LEN);
    assert!(it.next().is_none());
}
