use vstd::prelude::*;
use crate::address::Address;
use crate::derivation::derived;
use crate::error::VaultError;
use crate::seeds::{state_seeds, vault_seeds, vault_signer_seeds, with_bump, STATE_TAG, VAULT_TAG};
use crate::state::VaultState;
use crate::transfer::{Authorization, Transfer};

verus! {

/// The bytes of the address under which the vault program is deployed.
pub const ID: [u8; 32] = [
    86, 143, 134, 79, 166, 43, 143, 176, 101, 164, 79, 134, 93, 233, 82, 235, 243, 23, 70, 44, 147,
    28, 167, 77, 71, 202, 214, 253, 156, 216, 19, 179,
];

/// The address under which the vault program is deployed.
pub fn id() -> (r: Address)
    ensures
        r.bytes == ID,
{
    Address { bytes: ID }
}

/// A record as an operation sees it: where it lives and what it holds.
#[derive(Clone, Copy, Debug, PartialEq, Eq)]
pub struct RecordAccount {
    pub key: Address,
    pub data: VaultState,
}

/// A value-holding address as an operation sees it, with its balance at
/// the time the operation starts.
#[derive(Clone, Copy, Debug, PartialEq, Eq)]
pub struct SystemAccount {
    pub key: Address,
    pub lamports: u64,
}

/// The accounts of an operation together with the program they are
/// presented to: every derivation is made under `program_id`.
#[derive(Clone, Copy, Debug, PartialEq, Eq)]
pub struct Context<T> {
    pub program_id: Address,
    pub accounts: T,
}

/// The bumps found while the accounts of `Initialize` were derived.
#[derive(Clone, Copy, Debug, PartialEq, Eq, Structural)]
pub struct InitializeBumps {
    pub state: u8,
    pub vault: u8,
}

/// The accounts that open a vault: the user, the record to create and the
/// vault it will govern.
#[derive(Clone, Copy, Debug, PartialEq, Eq)]
pub struct Initialize {
    pub user: Address,
    pub state: RecordAccount,
    pub vault: Address,
}

/// The accounts of a deposit or a withdrawal.
#[derive(Clone, Copy, Debug, PartialEq, Eq)]
pub struct Payment {
    pub user: Address,
    pub vault_state: RecordAccount,
    pub vault: Address,
}

/// The accounts that close a vault. `receiver` takes the vault's whole
/// balance.
#[derive(Clone, Copy, Debug, PartialEq, Eq)]
pub struct Close {
    pub user: Address,
    pub state: RecordAccount,
    pub vault: SystemAccount,
    pub receiver: Address,
}

impl Initialize {
    /// Stores the two bumps in the record.
    pub fn initialize(&mut self, bumps: &InitializeBumps) -> (r: Result<(), VaultError>)
        ensures
            r is Ok,
            final(self).state.data == (VaultState { state_bump: bumps.state, vault_bump: bumps.vault }),
            final(self).state.key == old(self).state.key,
            final(self).user == old(self).user,
            final(self).vault == old(self).vault,
    {
        self.state.data.state_bump = bumps.state;
        self.state.data.vault_bump = bumps.vault;
        Ok(())
    }
}

impl Payment {
    /// The transfer that moves `amount` from the user into the vault. The
    /// user signs, so no derivation proof is attached.
    pub fn deposit(&self, amount: u64) -> (t: Transfer)
        ensures
            t.from == self.user,
            t.to == self.vault,
            t.amount == amount,
            t.authorization.seeds() is None,
    {
        Transfer { from: self.user, to: self.vault, amount, authorization: Authorization::Signature }
    }

    /// The transfer that moves `amount` from the vault to the user,
    /// authorized by the vault's seeds and the stored bump.
    pub fn withdraw(&self, amount: u64) -> (t: Transfer)
        ensures
            t.from == self.vault,
            t.to == self.user,
            t.amount == amount,
            t.authorization.seeds() == Some(
                with_bump(vault_seeds(self.vault_state.key@), self.vault_state.data.vault_bump),
            ),
    {
        let seeds = vault_signer_seeds(&self.vault_state.key, self.vault_state.data.vault_bump);
        Transfer {
            from: self.vault,
            to: self.user,
            amount,
            authorization: Authorization::Seeds(seeds),
        }
    }
}

impl Close {
    /// The transfer that drains the vault: its whole balance goes to the
    /// receiver, authorized by the vault's seeds and the stored bump.
    pub fn close(&self) -> (t: Transfer)
        ensures
            t.from == self.vault.key,
            t.to == self.receiver,
            t.amount == self.vault.lamports,
            t.authorization.seeds() == Some(
                with_bump(vault_seeds(self.state.key@), self.state.data.vault_bump),
            ),
    {
        let seeds = vault_signer_seeds(&self.state.key, self.state.data.vault_bump);
        Transfer {
            from: self.vault.key,
            to: self.receiver,
            amount: self.vault.lamports,
            authorization: Authorization::Seeds(seeds),
        }
    }
}

/// What opening a vault for `user` yields when `record` and `vault` are
/// the addresses presented: the record to store, or the reason for refusal.
pub open spec fn opened(program_id: Seq<u8>, user: Seq<u8>, record: Seq<u8>, vault: Seq<u8>) -> Result<
    VaultState,
    VaultError,
> {
    match derived(state_seeds(user), program_id) {
        None => Err(VaultError::DerivationExhausted),
        Some((record_address, state_bump)) => if record_address != record {
            Err(VaultError::InvalidDerivation)
        } else {
            match derived(vault_seeds(record), program_id) {
                None => Err(VaultError::DerivationExhausted),
                Some((vault_address, vault_bump)) => if vault_address != vault {
                    Err(VaultError::InvalidDerivation)
                } else {
                    Ok(VaultState { state_bump, vault_bump })
                },
            }
        },
    }
}

/// Opens a vault: derives the record's address from the user and the
/// vault's address from the record, compares both with the addresses
/// presented, and stores the two bumps in the record. No value moves.
pub fn initialize(ctx: &mut Context<Initialize>) -> (r: Result<(), VaultError>)
    ensures
        final(ctx).program_id == old(ctx).program_id,
        final(ctx).accounts.user == old(ctx).accounts.user,
        final(ctx).accounts.vault == old(ctx).accounts.vault,
        final(ctx).accounts.state.key == old(ctx).accounts.state.key,
        match opened(
            old(ctx).program_id@,
            old(ctx).accounts.user@,
            old(ctx).accounts.state.key@,
            old(ctx).accounts.vault@,
        ) {
            Ok(state) => r is Ok && final(ctx).accounts.state.data == state,
            Err(e) => r == Err::<(), VaultError>(e) && final(ctx).accounts.state.data == old(
                ctx,
            ).accounts.state.data,
        },
{
    let (record, state_bump) = crate::derivation::derive(
        STATE_TAG.as_slice(),
        ctx.accounts.user.bytes.as_slice(),
        &ctx.program_id,
    )?;
    if !record.same(&ctx.accounts.state.key) {
        return Err(VaultError::InvalidDerivation);
    }
    let (vault, vault_bump) = crate::derivation::derive(
        VAULT_TAG.as_slice(),
        ctx.accounts.state.key.bytes.as_slice(),
        &ctx.program_id,
    )?;
    if !vault.same(&ctx.accounts.vault) {
        return Err(VaultError::InvalidDerivation);
    }
    let bumps = InitializeBumps { state: state_bump, vault: vault_bump };
    ctx.accounts.initialize(&bumps)
}

/// Deposits `amount` into the user's vault: recomputes both derivations
/// from the stored bumps, and on a match yields the transfer from the user
/// to the vault.
pub fn deposit(ctx: Context<Payment>, amount: u64) -> (r: Result<Transfer, VaultError>)
    ensures
        r is Ok <==> ctx.accounts.vault_state.data.binds(
            ctx.program_id@,
            ctx.accounts.user@,
            ctx.accounts.vault_state.key@,
            ctx.accounts.vault@,
        ),
        r matches Err(e) ==> e == VaultError::InvalidDerivation,
        r matches Ok(t) ==> {
            &&& t.from == ctx.accounts.user
            &&& t.to == ctx.accounts.vault
            &&& t.amount == amount
            &&& t.authorization.seeds() is None
            &&& t.authorized(ctx.program_id@)
        },
{
    ctx.accounts.vault_state.data.verify(
        &ctx.program_id,
        &ctx.accounts.user,
        &ctx.accounts.vault_state.key,
        &ctx.accounts.vault,
    )?;
    Ok(ctx.accounts.deposit(amount))
}

/// Withdraws `amount` from the user's vault: recomputes both derivations
/// from the stored bumps, and on a match yields the transfer from the vault
/// to the user, carrying the vault's derivation as its authority.
pub fn withdraw(ctx: Context<Payment>, amount: u64) -> (r: Result<Transfer, VaultError>)
    ensures
        r is Ok <==> ctx.accounts.vault_state.data.binds(
            ctx.program_id@,
            ctx.accounts.user@,
            ctx.accounts.vault_state.key@,
            ctx.accounts.vault@,
        ),
        r matches Err(e) ==> e == VaultError::InvalidDerivation,
        r matches Ok(t) ==> {
            &&& t.from == ctx.accounts.vault
            &&& t.to == ctx.accounts.user
            &&& t.amount == amount
            &&& t.authorization.seeds() == Some(
                with_bump(
                    vault_seeds(ctx.accounts.vault_state.key@),
                    ctx.accounts.vault_state.data.vault_bump,
                ),
            )
            &&& t.authorized(ctx.program_id@)
        },
{
    ctx.accounts.vault_state.data.verify(
        &ctx.program_id,
        &ctx.accounts.user,
        &ctx.accounts.vault_state.key,
        &ctx.accounts.vault,
    )?;
    Ok(ctx.accounts.withdraw(amount))
}

/// Closes the user's vault: recomputes both derivations from the stored
/// bumps, and on a match yields the transfer of the vault's whole balance
/// to the receiver. The record is to be deallocated once that transfer has
/// gone through.
pub fn close(ctx: Context<Close>) -> (r: Result<Transfer, VaultError>)
    ensures
        r is Ok <==> ctx.accounts.state.data.binds(
            ctx.program_id@,
            ctx.accounts.user@,
            ctx.accounts.state.key@,
            ctx.accounts.vault.key@,
        ),
        r matches Err(e) ==> e == VaultError::InvalidDerivation,
        r matches Ok(t) ==> {
            &&& t.from == ctx.accounts.vault.key
            &&& t.to == ctx.accounts.receiver
            &&& t.amount == ctx.accounts.vault.lamports
            &&& t.authorization.seeds() == Some(
                with_bump(vault_seeds(ctx.accounts.state.key@), ctx.accounts.state.data.vault_bump),
            )
            &&& t.authorized(ctx.program_id@)
        },
{
    ctx.accounts.state.data.verify(
        &ctx.program_id,
        &ctx.accounts.user,
        &ctx.accounts.state.key,
        &ctx.accounts.vault.key,
    )?;
    Ok(ctx.accounts.close())
}

} // verus!
