//! Captured packets in the form that the C capture library reports them,
//! and their decoded headers.

pub mod binding;
pub mod packets;
