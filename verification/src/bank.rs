use vstd::prelude::*;
use crate::address::Address;
use crate::error::VaultError;
use crate::instructions::{opened, Close, Context, Initialize, Payment, RecordAccount, SystemAccount};
use crate::ledger::{moved, Ledger};
use crate::records::Records;
use crate::state::VaultState;

verus! {

/// The vault program together with the two collaborators it drives: the
/// ledger that holds the balances and the storage that holds the records.
/// Every operation is all or nothing: it either goes through, or it fails
/// and leaves the bank as it was.
#[derive(Clone, Debug)]
pub struct Bank {
    pub program_id: Address,
    pub ledger: Ledger,
    pub records: Records,
}

/// The record that an operation of `user` works on, when `record` and
/// `vault` are the addresses presented: the record stored at `record`,
/// provided its bumps reproduce both addresses.
pub open spec fn loaded(
    records: Map<Seq<u8>, VaultState>,
    program_id: Seq<u8>,
    user: Seq<u8>,
    record: Seq<u8>,
    vault: Seq<u8>,
) -> Result<VaultState, VaultError> {
    if !records.dom().contains(record) {
        Err(VaultError::NotFound)
    } else if !records[record].binds(program_id, user, record, vault) {
        Err(VaultError::InvalidDerivation)
    } else {
        Ok(records[record])
    }
}

/// The outcome of opening a vault: the record to store at `record`.
pub open spec fn open_outcome(
    records: Map<Seq<u8>, VaultState>,
    program_id: Seq<u8>,
    user: Seq<u8>,
    record: Seq<u8>,
    vault: Seq<u8>,
) -> Result<VaultState, VaultError> {
    match opened(program_id, user, record, vault) {
        Err(e) => Err(e),
        Ok(state) => if records.dom().contains(record) {
            Err(VaultError::AlreadyExists)
        } else {
            Ok(state)
        },
    }
}

/// The outcome of moving `amount` out of `from` on behalf of `user`: the
/// record is loaded first, then the funds are examined.
pub open spec fn payment_outcome(
    records: Map<Seq<u8>, VaultState>,
    balances: Map<Seq<u8>, nat>,
    program_id: Seq<u8>,
    user: Seq<u8>,
    record: Seq<u8>,
    vault: Seq<u8>,
    from: Seq<u8>,
    amount: nat,
) -> Result<(), VaultError> {
    match loaded(records, program_id, user, record, vault) {
        Err(e) => Err(e),
        Ok(_) => if balances[from] < amount {
            Err(VaultError::InsufficientFunds)
        } else {
            Ok(())
        },
    }
}

/// The outcome of a deposit of `amount` by `user`.
pub open spec fn deposit_outcome(
    records: Map<Seq<u8>, VaultState>,
    balances: Map<Seq<u8>, nat>,
    program_id: Seq<u8>,
    user: Seq<u8>,
    record: Seq<u8>,
    vault: Seq<u8>,
    amount: nat,
) -> Result<(), VaultError> {
    payment_outcome(records, balances, program_id, user, record, vault, user, amount)
}

/// The balances after a deposit of `amount` by `user` was attempted.
pub open spec fn after_deposit(
    records: Map<Seq<u8>, VaultState>,
    balances: Map<Seq<u8>, nat>,
    program_id: Seq<u8>,
    user: Seq<u8>,
    record: Seq<u8>,
    vault: Seq<u8>,
    amount: nat,
) -> Map<Seq<u8>, nat> {
    if deposit_outcome(records, balances, program_id, user, record, vault, amount) is Ok {
        moved(balances, user, vault, amount)
    } else {
        balances
    }
}

/// The outcome of a withdrawal of `amount` by `user`.
pub open spec fn withdraw_outcome(
    records: Map<Seq<u8>, VaultState>,
    balances: Map<Seq<u8>, nat>,
    program_id: Seq<u8>,
    user: Seq<u8>,
    record: Seq<u8>,
    vault: Seq<u8>,
    amount: nat,
) -> Result<(), VaultError> {
    payment_outcome(records, balances, program_id, user, record, vault, vault, amount)
}

/// The balances after a withdrawal of `amount` by `user` was attempted.
pub open spec fn after_withdraw(
    records: Map<Seq<u8>, VaultState>,
    balances: Map<Seq<u8>, nat>,
    program_id: Seq<u8>,
    user: Seq<u8>,
    record: Seq<u8>,
    vault: Seq<u8>,
    amount: nat,
) -> Map<Seq<u8>, nat> {
    if withdraw_outcome(records, balances, program_id, user, record, vault, amount) is Ok {
        moved(balances, vault, user, amount)
    } else {
        balances
    }
}

/// The outcome of closing the vault of `user`.
pub open spec fn close_outcome(
    records: Map<Seq<u8>, VaultState>,
    program_id: Seq<u8>,
    user: Seq<u8>,
    record: Seq<u8>,
    vault: Seq<u8>,
) -> Result<(), VaultError> {
    match loaded(records, program_id, user, record, vault) {
        Err(e) => Err(e),
        Ok(_) => Ok(()),
    }
}

/// The balances once the vault has been drained into `receiver`: the
/// vault's whole balance has moved.
pub open spec fn drained(balances: Map<Seq<u8>, nat>, vault: Seq<u8>, receiver: Seq<u8>) -> Map<
    Seq<u8>,
    nat,
> {
    moved(balances, vault, receiver, balances[vault])
}

impl Bank {
    /// The bank's invariant: that of its ledger and of its storage.
    pub open spec fn wf(&self) -> bool {
        self.ledger.wf() && self.records.wf()
    }

    /// A bank for the program `program_id`, with no balances and no records.
    pub fn new(program_id: Address) -> (r: Bank)
        ensures
            r.wf(),
            r.program_id == program_id,
            r.records@ == Map::<Seq<u8>, VaultState>::empty(),
            r.ledger.supply() == 0,
            forall|who: Seq<u8>| r.ledger@[who] == 0,
    {
        Bank { program_id, ledger: Ledger::new(), records: Records::new() }
    }

    /// Opens the vault of `user`. `state` and `vault` are the addresses the
    /// caller presents for the record and for the vault; both must be the
    /// ones derived for `user`. The record is created at `state` with the
    /// two bumps. No value moves.
    pub fn initialize(&mut self, user: &Address, state: &Address, vault: &Address) -> (r: Result<
        (),
        VaultError,
    >)
        requires
            old(self).wf(),
        ensures
            final(self).wf(),
            final(self).program_id == old(self).program_id,
            final(self).ledger == old(self).ledger,
            match open_outcome(old(self).records@, old(self).program_id@, user@, state@, vault@) {
                Ok(data) => r is Ok && final(self).records@ == old(self).records@.insert(state@, data),
                Err(e) => r == Err::<(), VaultError>(e) && final(self).records@ == old(self).records@,
            },
    {
        let mut ctx = Context {
            program_id: self.program_id,
            accounts: Initialize {
                user: *user,
                state: RecordAccount { key: *state, data: VaultState::default() },
                vault: *vault,
            },
        };
        crate::instructions::initialize(&mut ctx)?;
        self.records.allocate(state, ctx.accounts.state.data)
    }

    /// Moves `amount` from `user` into the vault. `vault_state` and `vault`
    /// are the addresses the caller presents for the record and the vault.
    pub fn deposit(&mut self, user: &Address, vault_state: &Address, vault: &Address, amount: u64) -> (r:
        Result<(), VaultError>)
        requires
            old(self).wf(),
        ensures
            final(self).wf(),
            final(self).program_id == old(self).program_id,
            final(self).records@ == old(self).records@,
            final(self).ledger.supply() == old(self).ledger.supply(),
            r == deposit_outcome(
                old(self).records@,
                old(self).ledger@,
                old(self).program_id@,
                user@,
                vault_state@,
                vault@,
                amount as nat,
            ),
            final(self).ledger@ == after_deposit(
                old(self).records@,
                old(self).ledger@,
                old(self).program_id@,
                user@,
                vault_state@,
                vault@,
                amount as nat,
            ),
    {
        let data = match self.records.get(vault_state) {
            Some(data) => data,
            None => {
                return Err(VaultError::NotFound);
            },
        };
        let ctx = Context {
            program_id: self.program_id,
            accounts: Payment {
                user: *user,
                vault_state: RecordAccount { key: *vault_state, data },
                vault: *vault,
            },
        };
        let t = crate::instructions::deposit(ctx, amount)?;
        self.ledger.transfer(&t, &self.program_id)
    }

    /// Moves `amount` from the vault back to `user`, on the authority of
    /// the vault's derivation.
    pub fn withdraw(&mut self, user: &Address, vault_state: &Address, vault: &Address, amount: u64) -> (r:
        Result<(), VaultError>)
        requires
            old(self).wf(),
        ensures
            final(self).wf(),
            final(self).program_id == old(self).program_id,
            final(self).records@ == old(self).records@,
            final(self).ledger.supply() == old(self).ledger.supply(),
            r == withdraw_outcome(
                old(self).records@,
                old(self).ledger@,
                old(self).program_id@,
                user@,
                vault_state@,
                vault@,
                amount as nat,
            ),
            final(self).ledger@ == after_withdraw(
                old(self).records@,
                old(self).ledger@,
                old(self).program_id@,
                user@,
                vault_state@,
                vault@,
                amount as nat,
            ),
    {
        let data = match self.records.get(vault_state) {
            Some(data) => data,
            None => {
                return Err(VaultError::NotFound);
            },
        };
        let ctx = Context {
            program_id: self.program_id,
            accounts: Payment {
                user: *user,
                vault_state: RecordAccount { key: *vault_state, data },
                vault: *vault,
            },
        };
        let t = crate::instructions::withdraw(ctx, amount)?;
        self.ledger.transfer(&t, &self.program_id)
    }

    /// Closes the vault of `user`: the vault's whole balance moves to
    /// `receiver`, and only then is the record deallocated.
    pub fn close(&mut self, user: &Address, state: &Address, vault: &Address, receiver: &Address) -> (r:
        Result<(), VaultError>)
        requires
            old(self).wf(),
        ensures
            final(self).wf(),
            final(self).program_id == old(self).program_id,
            final(self).ledger.supply() == old(self).ledger.supply(),
            r == close_outcome(old(self).records@, old(self).program_id@, user@, state@, vault@),
            final(self).ledger@ == match r {
                Ok(_) => drained(old(self).ledger@, vault@, receiver@),
                Err(_) => old(self).ledger@,
            },
            final(self).records@ == match r {
                Ok(_) => old(self).records@.remove(state@),
                Err(_) => old(self).records@,
            },
    {
        let data = match self.records.get(state) {
            Some(data) => data,
            None => {
                return Err(VaultError::NotFound);
            },
        };
        let lamports = self.ledger.balance(vault);
        let ctx = Context {
            program_id: self.program_id,
            accounts: Close {
                user: *user,
                state: RecordAccount { key: *state, data },
                vault: SystemAccount { key: *vault, lamports },
                receiver: *receiver,
            },
        };
        let t = crate::instructions::close(ctx)?;
        match self.ledger.transfer(&t, &self.program_id) {
            Ok(_) => {},
            Err(e) => {
                return Err(e);
            },
        }
        match self.records.deallocate(state) {
            Ok(_) => Ok(()),
            Err(e) => Err(e),
        }
    }
}

} // verus!
