use vstd::prelude::*;
use crate::address::Address;
use crate::derivation::create_program_address;
use crate::error::VaultError;
use crate::transfer::{Authorization, Transfer};

verus! {

/// What one address holds.
#[derive(Clone, Copy, Debug)]
struct Holding {
    owner: Address,
    amount: u64,
}

/// A store of balances: the party with address X holds N units of value.
/// An address that was never credited holds nothing. The sum of all
/// balances, the supply, fits in a `u64`.
#[derive(Clone, Debug)]
pub struct Ledger {
    entries: Vec<Holding>,
    minted: u64,
}

/// The balances after `amount` has left `from` and reached `to`.
pub open spec fn moved(balances: Map<Seq<u8>, nat>, from: Seq<u8>, to: Seq<u8>, amount: nat) -> Map<
    Seq<u8>,
    nat,
> {
    let debited = balances.insert(from, (balances[from] - amount) as nat);
    debited.insert(to, (debited[to] + amount) as nat)
}

/// How the ledger of `program_id` answers a transfer when the balances are
/// `balances`: it refuses an authority it cannot reproduce, then a source
/// that holds too little.
pub open spec fn settled(balances: Map<Seq<u8>, nat>, t: Transfer, program_id: Seq<u8>) -> Result<
    (),
    VaultError,
> {
    if !t.authorized(program_id) {
        Err(VaultError::InvalidDerivation)
    } else if balances[t.from@] < t.amount {
        Err(VaultError::InsufficientFunds)
    } else {
        Ok(())
    }
}

spec fn distinct(es: Seq<Holding>) -> bool {
    forall|i: int, j: int| 0 <= i < j < es.len() ==> es[i].owner@ != es[j].owner@
}

spec fn total(es: Seq<Holding>) -> nat
    decreases es.len(),
{
    if es.len() == 0 {
        0
    } else {
        total(es.drop_last()) + es.last().amount as nat
    }
}

spec fn balance_in(es: Seq<Holding>, who: Seq<u8>) -> nat
    decreases es.len(),
{
    if es.len() == 0 {
        0
    } else if es.last().owner@ == who {
        es.last().amount as nat
    } else {
        balance_in(es.drop_last(), who)
    }
}

proof fn lemma_balance_at(es: Seq<Holding>, i: int)
    requires
        distinct(es),
        0 <= i < es.len(),
    ensures
        balance_in(es, es[i].owner@) == es[i].amount,
    decreases es.len(),
{
    if i < es.len() - 1 {
        lemma_balance_at(es.drop_last(), i);
    }
}

proof fn lemma_balance_absent(es: Seq<Holding>, who: Seq<u8>)
    requires
        forall|i: int| 0 <= i < es.len() ==> es[i].owner@ != who,
    ensures
        balance_in(es, who) == 0,
    decreases es.len(),
{
    if es.len() > 0 {
        lemma_balance_absent(es.drop_last(), who);
    }
}

proof fn lemma_balance_elsewhere(es: Seq<Holding>, i: int, h: Holding, who: Seq<u8>)
    requires
        0 <= i < es.len(),
        h.owner@ == es[i].owner@,
        who != h.owner@,
    ensures
        balance_in(es.update(i, h), who) == balance_in(es, who),
    decreases es.len(),
{
    if i < es.len() - 1 {
        assert(es.update(i, h).drop_last() =~= es.drop_last().update(i, h));
        lemma_balance_elsewhere(es.drop_last(), i, h, who);
    } else {
        assert(es.update(i, h).drop_last() =~= es.drop_last());
    }
}

proof fn lemma_total_update(es: Seq<Holding>, i: int, h: Holding)
    requires
        0 <= i < es.len(),
    ensures
        total(es.update(i, h)) == total(es) - es[i].amount + h.amount,
    decreases es.len(),
{
    if i < es.len() - 1 {
        assert(es.update(i, h).drop_last() =~= es.drop_last().update(i, h));
        lemma_total_update(es.drop_last(), i, h);
    } else {
        assert(es.update(i, h).drop_last() =~= es.drop_last());
    }
}

proof fn lemma_entry_bound(es: Seq<Holding>, i: int)
    requires
        0 <= i < es.len(),
    ensures
        es[i].amount <= total(es),
    decreases es.len(),
{
    if i < es.len() - 1 {
        lemma_entry_bound(es.drop_last(), i);
    }
}

impl Ledger {
    /// The ledger's invariant: no address is listed twice, and the supply
    /// is the sum of the balances.
    pub closed spec fn wf(&self) -> bool {
        &&& distinct(self.entries@)
        &&& total(self.entries@) == self.minted
    }

    /// What `who` holds.
    pub closed spec fn balance_of(&self, who: Seq<u8>) -> nat {
        balance_in(self.entries@, who)
    }

    /// The sum of all balances.
    pub closed spec fn supply(&self) -> nat {
        self.minted as nat
    }

    /// The balance of every address.
    pub open spec fn view(&self) -> Map<Seq<u8>, nat> {
        Map::new(|who: Seq<u8>| true, |who: Seq<u8>| self.balance_of(who))
    }

    /// A ledger on which nobody holds anything.
    pub fn new() -> (r: Ledger)
        ensures
            r.wf(),
            r.supply() == 0,
            forall|who: Seq<u8>| r@[who] == 0,
    {
        Ledger { entries: Vec::new(), minted: 0 }
    }

    fn position(&self, who: &Address) -> (r: Option<usize>)
        ensures
            match r {
                Some(i) => i < self.entries@.len() && self.entries@[i as int].owner@ == who@,
                None => forall|i: int| 0 <= i < self.entries@.len() ==> self.entries@[i].owner@ != who@,
            },
    {
        let mut i: usize = 0;
        while i < self.entries.len()
            invariant
                i <= self.entries@.len(),
                forall|j: int| 0 <= j < i ==> self.entries@[j].owner@ != who@,
            decreases self.entries@.len() - i,
        {
            if self.entries[i].owner.same(who) {
                return Some(i);
            }
            i = i + 1;
        }
        None
    }

    /// What `who` holds.
    pub fn balance(&self, who: &Address) -> (r: u64)
        requires
            self.wf(),
        ensures
            r == self@[who@],
    {
        match self.position(who) {
            Some(i) => {
                proof {
                    lemma_balance_at(self.entries@, i as int);
                }
                self.entries[i].amount
            },
            None => {
                proof {
                    lemma_balance_absent(self.entries@, who@);
                }
                0
            },
        }
    }

    /// The supply: the sum of all balances.
    pub fn total_supply(&self) -> (r: u64)
        requires
            self.wf(),
        ensures
            r == self.supply(),
    {
        self.minted
    }

    fn credit(&mut self, to: &Address, amount: u64)
        requires
            distinct(old(self).entries@),
            total(old(self).entries@) + amount <= u64::MAX,
        ensures
            distinct(final(self).entries@),
            total(final(self).entries@) == total(old(self).entries@) + amount,
            final(self).minted == old(self).minted,
            forall|who: Seq<u8>|
                balance_in(final(self).entries@, who) == balance_in(old(self).entries@, who) + (if who
                    == to@ {
                    amount as nat
                } else {
                    0
                }),
    {
        let ghost before = self.entries@;
        match self.position(to) {
            Some(j) => {
                let held = self.entries[j].amount;
                proof {
                    lemma_entry_bound(before, j as int);
                    lemma_balance_at(before, j as int);
                }
                let h = Holding { owner: *to, amount: held + amount };
                self.entries.set(j, h);
                proof {
                    lemma_total_update(before, j as int, h);
                    lemma_balance_at(self.entries@, j as int);
                    assert forall|who: Seq<u8>| who != to@ implies balance_in(self.entries@, who)
                        == balance_in(before, who) by {
                        lemma_balance_elsewhere(before, j as int, h, who);
                    }
                }
            },
            None => {
                let h = Holding { owner: *to, amount };
                self.entries.push(h);
                proof {
                    lemma_balance_absent(before, to@);
                    assert(self.entries@.drop_last() =~= before);
                }
            },
        }
    }

    /// Creates `amount` units of value for `to`. Refuses, with nothing
    /// changed, where the supply would no longer fit in a `u64`.
    pub fn mint(&mut self, to: &Address, amount: u64) -> (r: bool)
        requires
            old(self).wf(),
        ensures
            final(self).wf(),
            r == (old(self).supply() + amount <= u64::MAX),
            r ==> final(self).supply() == old(self).supply() + amount,
            r ==> final(self)@ == old(self)@.insert(to@, (old(self)@[to@] + amount) as nat),
            !r ==> *final(self) == *old(self),
    {
        if amount > u64::MAX - self.minted {
            return false;
        }
        self.credit(to, amount);
        self.minted = self.minted + amount;
        assert(self@ =~= old(self)@.insert(to@, (old(self)@[to@] + amount) as nat));
        true
    }

    fn accepts(t: &Transfer, program_id: &Address) -> (r: bool)
        ensures
            r == t.authorized(program_id@),
    {
        match &t.authorization {
            Authorization::Signature => true,
            Authorization::Seeds(parts) => match create_program_address(parts, program_id) {
                Ok(address) => address.same(&t.from),
                Err(_) => false,
            },
        }
    }

    /// Carries out a transfer. The authority is examined first, then the
    /// funds; a refused transfer changes nothing.
    pub fn transfer(&mut self, t: &Transfer, program_id: &Address) -> (r: Result<(), VaultError>)
        requires
            old(self).wf(),
        ensures
            final(self).wf(),
            final(self).supply() == old(self).supply(),
            r == settled(old(self)@, *t, program_id@),
            final(self)@ == match r {
                Ok(_) => moved(old(self)@, t.from@, t.to@, t.amount as nat),
                Err(_) => old(self)@,
            },
    {
        if !Self::accepts(t, program_id) {
            return Err(VaultError::InvalidDerivation);
        }
        let ghost before = self.entries@;
        let source = self.position(&t.from);
        let held = match source {
            Some(i) => {
                proof {
                    lemma_balance_at(before, i as int);
                }
                self.entries[i].amount
            },
            None => {
                proof {
                    lemma_balance_absent(before, t.from@);
                }
                0
            },
        };
        if held < t.amount {
            return Err(VaultError::InsufficientFunds);
        }
        if t.amount == 0 {
            assert(self@ =~= moved(old(self)@, t.from@, t.to@, t.amount as nat));
            return Ok(());
        }
        let i = source.unwrap();
        let h = Holding { owner: t.from, amount: held - t.amount };
        self.entries.set(i, h);
        proof {
            lemma_total_update(before, i as int, h);
            lemma_balance_at(self.entries@, i as int);
            assert forall|who: Seq<u8>| who != t.from@ implies balance_in(self.entries@, who)
                == balance_in(before, who) by {
                lemma_balance_elsewhere(before, i as int, h, who);
            }
        }
        self.credit(&t.to, t.amount);
        assert(self@ =~= moved(old(self)@, t.from@, t.to@, t.amount as nat));
        Ok(())
    }
}

} // verus!
