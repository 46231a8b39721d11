//! The record header that BPF puts before each captured packet.

use vstd::prelude::*;

use crate::utils::ParseError;
use crate::wire::{host32, read_host_u16, read_host_u32};

verus! {

/// Number of bytes of a [`BPFFrame`].
pub const BPF_FRAME_LEN: usize = 18;

/// A 32-bit timestamp: seconds and microseconds.
#[derive(Debug, Clone, Copy, PartialEq, Eq, Structural)]
pub struct TimeVal32 {
    pub tv_sec: i32,
    pub tv_usec: i32,
}

/// A BPF record header, its fields in the machine's own byte order:
/// timestamp, captured length, original length and header length.
#[derive(Debug, Clone, Copy, PartialEq, Eq, Structural)]
pub struct BPFFrame {
    pub bh_tstamp: TimeVal32,
    pub bh_caplen: u32,
    pub bh_datalen: u32,
    pub bh_hdrlen: u16,
}

impl BPFFrame {
    /// `self` holds the fields stored in the first bytes of `frame`.
    pub open spec fn decodes(self, frame: Seq<u8>) -> bool {
        &&& self.bh_tstamp.tv_sec == host32(frame, 0) as u32 as i32
        &&& self.bh_tstamp.tv_usec == host32(frame, 4) as u32 as i32
        &&& self.bh_caplen == host32(frame, 8)
        &&& self.bh_datalen == host32(frame, 12)
        &&& self.bh_hdrlen == crate::wire::host16(frame, 16)
    }

    /// Reads the record header at the start of `frame`.
    pub fn parse(frame: &[u8]) -> (r: Result<BPFFrame, ParseError>)
        requires
            frame.len() >= BPF_FRAME_LEN,
        ensures
            r matches Ok(h) && h.decodes(frame@),
    {
        let sec = read_host_u32(frame, 0);
        let usec = read_host_u32(frame, 4);
        Ok(BPFFrame {
            bh_tstamp: TimeVal32 { tv_sec: sec as i32, tv_usec: usec as i32 },
            bh_caplen: read_host_u32(frame, 8),
            bh_datalen: read_host_u32(frame, 12),
            bh_hdrlen: read_host_u16(frame, 16),
        })
    }
}

} // verus!
