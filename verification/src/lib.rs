//! A custodial value vault whose accounts are addressed by derivation.
//!
//! Every user owns one vault. The vault's record and the vault's
//! value-holding address are both derived from fixed tags, the user's
//! identity and a bump; no signing key exists for either. Authority over
//! the vault is the ability to reproduce its derivation.

pub mod address;
pub mod bank;
pub mod derivation;
pub mod error;
pub mod instructions;
pub mod laws;
pub mod ledger;
pub mod records;
pub mod seeds;
pub mod state;
pub mod transfer;
