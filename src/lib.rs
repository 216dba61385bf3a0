//! Small state machines and a toy blockchain: a digital-cash ledger of serial-numbered
//! bills, hash-linked header chains, proof-of-work mining and fork-choice rules.

pub mod state_machine;
pub mod blockchain;
