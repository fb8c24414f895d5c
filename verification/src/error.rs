use vstd::prelude::*;

verus! {

/// Why a vault operation was refused. Every error ends the operation with
/// nothing changed.
#[derive(Clone, Copy, Debug, PartialEq, Eq, Structural)]
pub enum VaultError {
    /// A record already lives at the address where one was to be created.
    AlreadyExists,
    /// No record lives at the address that was presented.
    NotFound,
    /// The presented addresses are not the ones the seeds and bumps derive.
    InvalidDerivation,
    /// The paying party holds less than the requested amount.
    InsufficientFunds,
    /// No bump in the search space yields a keyless address.
    DerivationExhausted,
}

} // verus!
