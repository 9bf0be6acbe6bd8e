//! Slot-ordered replica of lending-program ledger state, the decoders that feed
//! it, and the health-ranked scheduling of liquidation attempts.

pub mod address;
pub mod address_map;
pub mod cache;
pub mod clock;
pub mod common;
pub mod liquidation;
pub mod oracle;
pub mod service;
