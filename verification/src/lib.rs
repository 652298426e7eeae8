//! A minimal fungible-token ledger: token definitions, per-owner balance
//! accounts, minting and transfers, processed one instruction at a time
//! against the accounts that the host supplies.

pub mod account;
pub mod error;
pub mod identity;
pub mod instruction;
pub mod laws;
pub mod ledger;
pub mod processor;
pub mod state;
pub mod wire;
