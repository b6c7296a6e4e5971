//! Token vesting escrow: a sealed list of recipients, each paid out on a
//! twelve-month calendar schedule, with the rules that keep the escrow solvent.

pub mod constants;
pub mod error;
pub mod instructions;
pub mod invariants;
pub mod lifecycle;
pub mod pubkey;
pub mod state;
pub mod utils;
