//! Rat: packet parsing for a network sniffer.
//!
//! The library decodes protocol headers from raw bytes, builds a registry
//! of protocols linked by parent protocol and selector value, walks the
//! layers of a captured frame, and splits BPF capture buffers into packets.

pub mod addrs;
pub mod bpf;
pub mod capture;
pub mod format;
pub mod key_order;
pub mod buffer;
pub mod wire;
pub mod packet;
pub mod packets;
pub mod parser;
pub mod protocols;
pub mod rat_rs;
pub mod registry;
pub mod text;
pub mod utils;
