//! Errors shared by the packet parsers.

use vstd::prelude::*;

verus! {

/// Why a header could not be read from a frame.
#[derive(Debug, Clone, Copy, PartialEq, Eq, Structural)]
pub enum ParseError {
    PacketTooShort { expected: usize, actual: usize },
    InvalidValue,
    UnsupportedProtocol(u16),
}

} // verus!
