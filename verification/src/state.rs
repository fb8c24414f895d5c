use vstd::prelude::*;
use crate::address::Address;
use crate::derivation::{derive_with_bump, program_address};
use crate::error::VaultError;
use crate::seeds::{state_seeds, vault_seeds, with_bump, STATE_TAG, VAULT_TAG};

verus! {

/// The record that binds a user to their vault: the two bumps that
/// reproduce the record's own address and the vault's address.
#[derive(Clone, Copy, Debug, PartialEq, Eq, Structural)]
pub struct VaultState {
    /// Reproduces the record's address from the `state` tag and the identity.
    pub state_bump: u8,
    /// Reproduces the vault's address from the `vault` tag and the record's
    /// address.
    pub vault_bump: u8,
}

impl Default for VaultState {
    /// The contents of a freshly allocated record: both bumps zero.
    fn default() -> (r: VaultState)
        ensures
            r == (VaultState { state_bump: 0, vault_bump: 0 }),
    {
        VaultState { state_bump: 0, vault_bump: 0 }
    }
}

impl VaultState {
    /// The record's invariant: under `program_id`, the stored bumps
    /// reproduce `record` from `identity`, and `vault` from `record`.
    pub open spec fn binds(
        self,
        program_id: Seq<u8>,
        identity: Seq<u8>,
        record: Seq<u8>,
        vault: Seq<u8>,
    ) -> bool {
        &&& program_address(with_bump(state_seeds(identity), self.state_bump), program_id) == Some(
            record,
        )
        &&& program_address(with_bump(vault_seeds(record), self.vault_bump), program_id) == Some(
            vault,
        )
    }

    /// Recomputes both derivations from the stored bumps and compares them
    /// with the addresses that were presented.
    pub fn verify(
        &self,
        program_id: &Address,
        identity: &Address,
        record: &Address,
        vault: &Address,
    ) -> (r: Result<(), VaultError>)
        ensures
            r is Ok <==> self.binds(program_id@, identity@, record@, vault@),
            r is Err ==> r == Err::<(), VaultError>(VaultError::InvalidDerivation),
    {
        let expected_record = derive_with_bump(
            STATE_TAG.as_slice(),
            identity.bytes.as_slice(),
            self.state_bump,
            program_id,
        )?;
        if !expected_record.same(record) {
            return Err(VaultError::InvalidDerivation);
        }
        let expected_vault = derive_with_bump(
            VAULT_TAG.as_slice(),
            record.bytes.as_slice(),
            self.vault_bump,
            program_id,
        )?;
        if !expected_vault.same(vault) {
            return Err(VaultError::InvalidDerivation);
        }
        Ok(())
    }
}

} // verus!
