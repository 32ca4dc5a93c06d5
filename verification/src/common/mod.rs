//! Shared primitives: status codes, byte buffers, readers and checksums.

pub mod status;
pub mod buffer;
pub mod wire_reader;
pub mod crc32;
