use vstd::prelude::*;
use crate::address::Address;

verus! {

/// The tag under which a user's record is derived: the bytes of `state`.
pub const STATE_TAG: [u8; 5] = [115, 116, 97, 116, 101];

/// The tag under which a record's vault is derived: the bytes of `vault`.
pub const VAULT_TAG: [u8; 5] = [118, 97, 117, 108, 116];

/// The bytes of each seed in a seed list.
pub open spec fn seed_bytes(parts: Seq<Vec<u8>>) -> Seq<Seq<u8>> {
    Seq::new(parts.len(), |i: int| parts[i]@)
}

/// A seed list with the bump appended as a one-byte seed of its own.
pub open spec fn with_bump(seeds: Seq<Seq<u8>>, bump: u8) -> Seq<Seq<u8>> {
    seeds.push(seq![bump])
}

/// The seeds of a user's record, before the bump: the tag and the identity.
pub open spec fn state_seeds(identity: Seq<u8>) -> Seq<Seq<u8>> {
    seq![STATE_TAG@, identity]
}

/// The seeds of a record's vault, before the bump: the tag and the record's
/// address.
pub open spec fn vault_seeds(record: Seq<u8>) -> Seq<Seq<u8>> {
    seq![VAULT_TAG@, record]
}

/// Builds the two-part seed list `[tag, discriminant]`.
pub fn base_seeds(tag: &[u8], discriminant: &[u8]) -> (r: Vec<Vec<u8>>)
    ensures
        seed_bytes(r@) == seq![tag@, discriminant@],
{
    let mut first: Vec<u8> = Vec::new();
    first.extend_from_slice(tag);
    let mut second: Vec<u8> = Vec::new();
    second.extend_from_slice(discriminant);
    let mut parts: Vec<Vec<u8>> = Vec::new();
    assert(first@ =~= tag@);
    assert(second@ =~= discriminant@);
    parts.push(first);
    parts.push(second);
    assert(seed_bytes(parts@) =~= seq![tag@, discriminant@]);
    parts
}

/// Builds the three-part seed list `[tag, discriminant, [bump]]`.
pub fn bumped_seeds(tag: &[u8], discriminant: &[u8], bump: u8) -> (r: Vec<Vec<u8>>)
    ensures
        seed_bytes(r@) == with_bump(seq![tag@, discriminant@], bump),
{
    let mut parts = base_seeds(tag, discriminant);
    let ghost before = parts@;
    let mut last: Vec<u8> = Vec::new();
    last.push(bump);
    parts.push(last);
    assert(seed_bytes(parts@) =~= seed_bytes(before).push(seq![bump]));
    parts
}

/// The authorization proof for a vault: the seeds and bump that reproduce
/// the vault's address from its record's address. Whoever can present
/// these may move value out of the vault.
pub fn vault_signer_seeds(record: &Address, vault_bump: u8) -> (r: Vec<Vec<u8>>)
    ensures
        seed_bytes(r@) == with_bump(vault_seeds(record@), vault_bump),
{
    bumped_seeds(VAULT_TAG.as_slice(), record.bytes.as_slice(), vault_bump)
}

} // verus!
