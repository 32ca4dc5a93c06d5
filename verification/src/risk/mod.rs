//! Risk contracts, session view slots, and low-level consumers.

pub mod ledger;
pub mod budget;
pub mod consumers;

pub use ledger::{RiskSessionState, RiskViewSlot};
