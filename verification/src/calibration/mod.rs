//! Calibration data processing.

pub mod quality_window;
