//! Classification of frames: where a protocol sits, and EtherType values.

pub mod ethernet;

use vstd::prelude::*;

verus! {

/// The layer a header belongs to: the record header of a capture, or an OSI layer.
#[derive(Debug, Clone, Copy, PartialEq, Eq, Structural)]
pub enum Layer {
    /// Packet record header.
    PRH,
    OSI(OSILayer),
}

/// The seven OSI layers.
#[derive(Debug, Clone, Copy, PartialEq, Eq, Structural)]
pub enum OSILayer {
    Physical,
    DataLink,
    Network,
    Transport,
    Session,
    Presentation,
    Application,
}

} // verus!
