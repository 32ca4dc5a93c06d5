//! The HVWS wire session: framing, varints and section dispatch.

pub mod frame;
pub mod varint;
pub mod session_feeder;
pub mod stats;
