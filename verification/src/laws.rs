use vstd::prelude::*;
use crate::address::Address;
use crate::bank::{
    after_deposit, after_withdraw, close_outcome, deposit_outcome, drained, withdraw_outcome,
};
use crate::derivation::{derived, program_address, search};
use crate::error::VaultError;
use crate::instructions::opened;
use crate::ledger::moved;
use crate::seeds::{state_seeds, vault_seeds, with_bump, STATE_TAG, VAULT_TAG};
use crate::state::VaultState;

verus! {

/// Derivation is deterministic: whatever two calls of `derive` return for
/// the same tag, discriminant and program, they return the same.
pub proof fn lemma_derive_is_deterministic(
    tag: &[u8],
    discriminant: &[u8],
    program_id: &Address,
    first: Result<(Address, u8), VaultError>,
    second: Result<(Address, u8), VaultError>,
)
    requires
        call_ensures(crate::derivation::derive, (tag, discriminant, program_id), first),
        call_ensures(crate::derivation::derive, (tag, discriminant, program_id), second),
    ensures
        first == second,
{
    match (first, second) {
        (Ok((a, _)), Ok((b, _))) => {
            crate::address::lemma_address_by_view(a, b);
        },
        _ => {},
    }
}

/// A bump that the search lands on reproduces the address it was found
/// with: recomputing the derivation from that bump yields the same address.
pub proof fn lemma_search_reproduces(seeds: Seq<Seq<u8>>, program_id: Seq<u8>, bump: nat)
    ensures
        search(seeds, program_id, bump) matches Some((address, found)) ==> 1 <= found <= bump
            && program_address(with_bump(seeds, found), program_id) == Some(address),
    decreases bump,
{
    if 0 < bump <= 255 && program_address(with_bump(seeds, bump as u8), program_id) is None {
        lemma_search_reproduces(seeds, program_id, (bump - 1) as nat);
    }
}

proof fn lemma_search_skips_nothing(seeds: Seq<Seq<u8>>, program_id: Seq<u8>, bump: nat, above: u8)
    requires
        bump <= 255,
        1 <= above <= bump,
        search(seeds, program_id, bump) matches Some((_, found)) ==> found < above,
    ensures
        program_address(with_bump(seeds, above), program_id) is None,
    decreases bump,
{
    if above < bump {
        lemma_search_skips_nothing(seeds, program_id, (bump - 1) as nat, above);
    }
}

/// The bump that a derivation lands on is the highest one that yields an
/// address: no bump above it yields one, and where the derivation fails,
/// no bump from 1 to 255 yields one.
pub proof fn lemma_derived_is_highest(seeds: Seq<Seq<u8>>, program_id: Seq<u8>, above: u8)
    requires
        1 <= above,
        derived(seeds, program_id) matches Some((_, found)) ==> found < above,
    ensures
        program_address(with_bump(seeds, above), program_id) is None,
{
    lemma_search_skips_nothing(seeds, program_id, 255, above);
}

/// Opening a vault and then recomputing both derivations reproduces what
/// the record stores: the searches land on the stored bumps, and the
/// stored bumps reproduce the record's and the vault's address.
pub proof fn lemma_opened_record_binds(
    program_id: Seq<u8>,
    user: Seq<u8>,
    record: Seq<u8>,
    vault: Seq<u8>,
)
    ensures
        opened(program_id, user, record, vault) matches Ok(state) ==> {
            &&& derived(state_seeds(user), program_id) == Some((record, state.state_bump))
            &&& derived(vault_seeds(record), program_id) == Some((vault, state.vault_bump))
            &&& state.binds(program_id, user, record, vault)
        },
{
    lemma_search_reproduces(state_seeds(user), program_id, 255);
    lemma_search_reproduces(vault_seeds(record), program_id, 255);
}

/// The seeds partition the derivations: two identities never share the
/// seeds of their records, whatever the bumps, and the seeds of a record
/// are never those of a vault. (That distinct seeds give distinct
/// addresses rests on the hash behind the derivation and is not shown
/// here.)
pub proof fn lemma_seeds_partition(first: Seq<u8>, second: Seq<u8>, bump: u8, other_bump: u8)
    ensures
        first != second ==> with_bump(state_seeds(first), bump) != with_bump(
            state_seeds(second),
            other_bump,
        ),
        first != second ==> with_bump(vault_seeds(first), bump) != with_bump(
            vault_seeds(second),
            other_bump,
        ),
        with_bump(state_seeds(first), bump) != with_bump(vault_seeds(second), other_bump),
{
    assert(with_bump(state_seeds(first), bump)[1] == first);
    assert(with_bump(state_seeds(second), other_bump)[1] == second);
    assert(with_bump(vault_seeds(first), bump)[1] == first);
    assert(with_bump(vault_seeds(second), other_bump)[1] == second);
    assert(with_bump(state_seeds(first), bump)[0] == STATE_TAG@);
    assert(with_bump(vault_seeds(second), other_bump)[0] == VAULT_TAG@);
    assert(STATE_TAG@[0] == 115u8);
    assert(VAULT_TAG@[0] == 118u8);
}

/// A transfer touches nobody but its two parties.
pub proof fn lemma_moved_touches_only_its_parties(
    balances: Map<Seq<u8>, nat>,
    from: Seq<u8>,
    to: Seq<u8>,
    amount: nat,
    other: Seq<u8>,
)
    requires
        other != from,
        other != to,
    ensures
        moved(balances, from, to, amount)[other] == balances[other],
{
}

/// Closing is safe to attempt again. Once the vault has been drained and
/// while its record is still there, a further close is accepted and moves
/// nothing: every balance stays as the first attempt left it.
pub proof fn lemma_close_again_moves_nothing(
    records: Map<Seq<u8>, VaultState>,
    balances: Map<Seq<u8>, nat>,
    program_id: Seq<u8>,
    user: Seq<u8>,
    record: Seq<u8>,
    vault: Seq<u8>,
    receiver: Seq<u8>,
)
    requires
        close_outcome(records, program_id, user, record, vault) is Ok,
    ensures
        close_outcome(records, program_id, user, record, vault) is Ok,
        drained(drained(balances, vault, receiver), vault, receiver) == drained(
            balances,
            vault,
            receiver,
        ),
        vault != receiver ==> drained(balances, vault, receiver)[vault] == 0,
{
    let once = drained(balances, vault, receiver);
    assert(drained(once, vault, receiver) =~= once);
}

/// Once a close has gone through, the record is gone: a further close is
/// refused for want of a record, and so moves nothing either.
pub proof fn lemma_close_after_close_is_refused(
    records: Map<Seq<u8>, VaultState>,
    program_id: Seq<u8>,
    user: Seq<u8>,
    record: Seq<u8>,
    vault: Seq<u8>,
)
    ensures
        close_outcome(records.remove(record), program_id, user, record, vault) == Err::<
            (),
            VaultError,
        >(VaultError::NotFound),
{
}

/// One operation that moves value into or out of a vault.
pub enum Movement {
    Deposit(u64),
    Withdraw(u64),
}

/// The accounts that a run of operations works on: the program, the user,
/// and the addresses presented for the record and the vault.
pub struct Parties {
    pub program_id: Seq<u8>,
    pub user: Seq<u8>,
    pub record: Seq<u8>,
    pub vault: Seq<u8>,
}

/// Whether the operation goes through on these balances.
pub open spec fn accepted(
    records: Map<Seq<u8>, VaultState>,
    balances: Map<Seq<u8>, nat>,
    p: Parties,
    m: Movement,
) -> bool {
    match m {
        Movement::Deposit(amount) => deposit_outcome(
            records,
            balances,
            p.program_id,
            p.user,
            p.record,
            p.vault,
            amount as nat,
        ) is Ok,
        Movement::Withdraw(amount) => withdraw_outcome(
            records,
            balances,
            p.program_id,
            p.user,
            p.record,
            p.vault,
            amount as nat,
        ) is Ok,
    }
}

/// The balances after the operation was attempted.
pub open spec fn step(
    records: Map<Seq<u8>, VaultState>,
    balances: Map<Seq<u8>, nat>,
    p: Parties,
    m: Movement,
) -> Map<Seq<u8>, nat> {
    match m {
        Movement::Deposit(amount) => after_deposit(
            records,
            balances,
            p.program_id,
            p.user,
            p.record,
            p.vault,
            amount as nat,
        ),
        Movement::Withdraw(amount) => after_withdraw(
            records,
            balances,
            p.program_id,
            p.user,
            p.record,
            p.vault,
            amount as nat,
        ),
    }
}

/// The balances after the operations were attempted one after another.
pub open spec fn replay(
    records: Map<Seq<u8>, VaultState>,
    balances: Map<Seq<u8>, nat>,
    p: Parties,
    ops: Seq<Movement>,
) -> Map<Seq<u8>, nat>
    decreases ops.len(),
{
    if ops.len() == 0 {
        balances
    } else {
        step(records, replay(records, balances, p, ops.drop_last()), p, ops.last())
    }
}

/// The sum of the deposits that went through.
pub open spec fn deposited(
    records: Map<Seq<u8>, VaultState>,
    balances: Map<Seq<u8>, nat>,
    p: Parties,
    ops: Seq<Movement>,
) -> nat
    decreases ops.len(),
{
    if ops.len() == 0 {
        0
    } else {
        let before = replay(records, balances, p, ops.drop_last());
        deposited(records, balances, p, ops.drop_last()) + match ops.last() {
            Movement::Deposit(amount) if accepted(records, before, p, ops.last()) => amount as nat,
            _ => 0,
        }
    }
}

/// The sum of the withdrawals that went through.
pub open spec fn withdrawn(
    records: Map<Seq<u8>, VaultState>,
    balances: Map<Seq<u8>, nat>,
    p: Parties,
    ops: Seq<Movement>,
) -> nat
    decreases ops.len(),
{
    if ops.len() == 0 {
        0
    } else {
        let before = replay(records, balances, p, ops.drop_last());
        withdrawn(records, balances, p, ops.drop_last()) + match ops.last() {
            Movement::Withdraw(amount) if accepted(records, before, p, ops.last()) => amount as nat,
            _ => 0,
        }
    }
}

/// Conservation. Over any run of deposits and withdrawals on a vault, the
/// vault ends with what it started with, plus the deposits that went
/// through, minus the withdrawals that went through; the withdrawals never
/// exceed what was there; and what the user and the vault hold together
/// does not change.
pub proof fn lemma_conservation(
    records: Map<Seq<u8>, VaultState>,
    balances: Map<Seq<u8>, nat>,
    p: Parties,
    ops: Seq<Movement>,
)
    requires
        p.user != p.vault,
    ensures
        replay(records, balances, p, ops)[p.vault] == balances[p.vault] + deposited(
            records,
            balances,
            p,
            ops,
        ) - withdrawn(records, balances, p, ops),
        withdrawn(records, balances, p, ops) <= balances[p.vault] + deposited(
            records,
            balances,
            p,
            ops,
        ),
        replay(records, balances, p, ops)[p.user] + replay(records, balances, p, ops)[p.vault]
            == balances[p.user] + balances[p.vault],
    decreases ops.len(),
{
    if ops.len() > 0 {
        lemma_conservation(records, balances, p, ops.drop_last());
    }
}

} // verus!
