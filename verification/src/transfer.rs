use vstd::prelude::*;
use crate::address::Address;
use crate::derivation::program_address;
use crate::seeds::seed_bytes;

verus! {

/// What entitles a transfer to take value out of its source.
#[derive(Clone, Debug, PartialEq, Eq)]
pub enum Authorization {
    /// The source is an identity that signed the operation.
    Signature,
    /// The source is a keyless address; the seeds, bump included, that
    /// derive it stand in for a signature.
    Seeds(Vec<Vec<u8>>),
}

/// A request to the ledger to move value from one address to another.
#[derive(Clone, Debug, PartialEq, Eq)]
pub struct Transfer {
    pub from: Address,
    pub to: Address,
    pub amount: u64,
    pub authorization: Authorization,
}

impl Authorization {
    /// The seeds presented as proof, if the authorization is by derivation.
    pub open spec fn seeds(self) -> Option<Seq<Seq<u8>>> {
        match self {
            Authorization::Signature => None,
            Authorization::Seeds(parts) => Some(seed_bytes(parts@)),
        }
    }
}

impl Transfer {
    /// Whether the ledger of `program_id` accepts the transfer's authority:
    /// a signature always, seeds exactly when they derive the source.
    pub open spec fn authorized(self, program_id: Seq<u8>) -> bool {
        match self.authorization.seeds() {
            None => true,
            Some(seeds) => program_address(seeds, program_id) == Some(self.from@),
        }
    }
}

} // verus!
