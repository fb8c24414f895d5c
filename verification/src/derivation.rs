use vstd::prelude::*;
use anchor_lang::solana_program::pubkey::{Pubkey, PubkeyError};
use crate::address::Address;
use crate::error::VaultError;
use crate::seeds::{base_seeds, bumped_seeds, seed_bytes, with_bump};

verus! {

/// The error of `Pubkey::create_program_address`, as an opaque type:
/// nothing is claimed of its values.
#[verifier::external_type_specification]
#[verifier::external_body]
pub struct ExPubkeyError(anchor_lang::solana_program::pubkey::PubkeyError);

/// The address that `Pubkey::create_program_address` computes from `seeds`
/// under the program `program_id`, or `None` where it reports an error
/// (the hash of the seeds lies on the curve, or a seed limit is exceeded).
pub uninterp spec fn program_address(seeds: Seq<Seq<u8>>, program_id: Seq<u8>) -> Option<Seq<u8>>;

/// The first bump from `bump` downwards, stopping above zero, whose seeds
/// yield an address, with that address.
pub open spec fn search(seeds: Seq<Seq<u8>>, program_id: Seq<u8>, bump: nat) -> Option<(Seq<u8>, u8)>
    decreases bump,
{
    if bump == 0 || bump > 255 {
        None
    } else {
        match program_address(with_bump(seeds, bump as u8), program_id) {
            Some(address) => Some((address, bump as u8)),
            None => search(seeds, program_id, (bump - 1) as nat),
        }
    }
}

/// The derived address of `seeds` and its bump: the highest bump, searching
/// from 255 downwards, whose seeds yield an address.
pub open spec fn derived(seeds: Seq<Seq<u8>>, program_id: Seq<u8>) -> Option<(Seq<u8>, u8)> {
    search(seeds, program_id, 255)
}

/// Calls `Pubkey::create_program_address`. Trusted: the outcome is the one
/// named by `program_address` for these seeds and this program, an error
/// standing for `None`.
#[verifier::external_body]
pub(crate) fn create_program_address(seeds: &Vec<Vec<u8>>, program_id: &Address) -> (r: Result<Address, PubkeyError>)
    ensures
        match r {
            Ok(address) => program_address(seed_bytes(seeds@), program_id@) == Some(address@),
            Err(_) => program_address(seed_bytes(seeds@), program_id@) is None,
        },
{
    let parts: Vec<&[u8]> = seeds.iter().map(|s| s.as_slice()).collect();
    let key = Pubkey::create_program_address(&parts, &Pubkey::new_from_array(program_id.bytes))?;
    Ok(Address { bytes: key.to_bytes() })
}

/// Calls `Pubkey::try_find_program_address`. Trusted: it tries the bumps
/// from 255 down to 1, each appended to the seeds as a last seed of one
/// byte, and returns the first address that `create_program_address`
/// yields, with its bump; `None` where no bump yields one.
#[verifier::external_body]
fn try_find_program_address(seeds: &Vec<Vec<u8>>, program_id: &Address) -> (r: Option<(Address, u8)>)
    ensures
        match r {
            Some((address, bump)) => derived(seed_bytes(seeds@), program_id@) == Some((address@, bump)),
            None => derived(seed_bytes(seeds@), program_id@) is None,
        },
{
    let parts: Vec<&[u8]> = seeds.iter().map(|s| s.as_slice()).collect();
    let found = Pubkey::try_find_program_address(&parts, &Pubkey::new_from_array(program_id.bytes));
    found.map(|(key, bump)| (Address { bytes: key.to_bytes() }, bump))
}

/// Derives the keyless address of `(tag, discriminant)` under `program_id`,
/// and the bump that lands on it.
pub fn derive(tag: &[u8], discriminant: &[u8], program_id: &Address) -> (r: Result<(Address, u8), VaultError>)
    ensures
        match r {
            Ok((address, bump)) => derived(seq![tag@, discriminant@], program_id@) == Some((address@, bump)),
            Err(e) => e == VaultError::DerivationExhausted
                && derived(seq![tag@, discriminant@], program_id@) is None,
        },
{
    let seeds = base_seeds(tag, discriminant);
    match try_find_program_address(&seeds, program_id) {
        Some(found) => Ok(found),
        None => Err(VaultError::DerivationExhausted),
    }
}

/// Recomputes the address of `(tag, discriminant)` under `program_id` from
/// a known bump, without searching.
pub fn derive_with_bump(tag: &[u8], discriminant: &[u8], bump: u8, program_id: &Address) -> (r: Result<Address, VaultError>)
    ensures
        match r {
            Ok(address) => program_address(with_bump(seq![tag@, discriminant@], bump), program_id@)
                == Some(address@),
            Err(e) => e == VaultError::InvalidDerivation
                && program_address(with_bump(seq![tag@, discriminant@], bump), program_id@) is None,
        },
{
    let seeds = bumped_seeds(tag, discriminant, bump);
    match create_program_address(&seeds, program_id) {
        Ok(address) => Ok(address),
        Err(_) => Err(VaultError::InvalidDerivation),
    }
}

} // verus!
