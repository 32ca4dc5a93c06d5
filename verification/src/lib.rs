//! Parsing and processing of HVWS observatory sessions and HVBK bundles.

pub mod common;
pub mod wire;
pub mod calibration;
pub mod package;
pub mod risk;
