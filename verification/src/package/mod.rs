//! Expedition bundle packages.

pub mod container_validator;
