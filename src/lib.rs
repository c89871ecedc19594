//! Per-channel state machine of a bilateral payment channel: the two-sided
//! TLC ledger, commitment numbering, balance accounting, settlement
//! encodings and the key material derived for each commitment.

pub mod tlc;

pub mod ledger;
pub mod crypto;
pub mod channel;
pub mod state;
pub mod encoding;
pub mod laws;
pub mod musig;
pub mod transitions;
pub mod settlement;
pub mod cells;
