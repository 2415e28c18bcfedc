//! Polls and candidates kept as uniquely addressed records in a ledger of
//! accounts: address derivation, record schemas and their size limits, and
//! the provisioning of new records.

pub mod address;
pub mod error;
pub mod instructions;
pub mod ledger;
pub mod state;
