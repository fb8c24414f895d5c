use vstd::prelude::*;
use crate::address::Address;
use crate::error::VaultError;
use crate::state::VaultState;

verus! {

/// One allocated record and the address it lives at.
#[derive(Clone, Copy, Debug)]
struct Slot {
    key: Address,
    data: VaultState,
}

/// The storage that holds the vault records, one per address at most.
#[derive(Clone, Debug)]
pub struct Records {
    slots: Vec<Slot>,
}

spec fn distinct(ss: Seq<Slot>) -> bool {
    forall|i: int, j: int| 0 <= i < j < ss.len() ==> ss[i].key@ != ss[j].key@
}

spec fn lookup(ss: Seq<Slot>, key: Seq<u8>) -> Option<VaultState>
    decreases ss.len(),
{
    if ss.len() == 0 {
        None
    } else if ss.last().key@ == key {
        Some(ss.last().data)
    } else {
        lookup(ss.drop_last(), key)
    }
}

proof fn lemma_lookup_at(ss: Seq<Slot>, i: int)
    requires
        distinct(ss),
        0 <= i < ss.len(),
    ensures
        lookup(ss, ss[i].key@) == Some(ss[i].data),
    decreases ss.len(),
{
    if i < ss.len() - 1 {
        lemma_lookup_at(ss.drop_last(), i);
    }
}

proof fn lemma_lookup_absent(ss: Seq<Slot>, key: Seq<u8>)
    requires
        forall|i: int| 0 <= i < ss.len() ==> ss[i].key@ != key,
    ensures
        lookup(ss, key) is None,
    decreases ss.len(),
{
    if ss.len() > 0 {
        lemma_lookup_absent(ss.drop_last(), key);
    }
}

proof fn lemma_lookup_remove(ss: Seq<Slot>, i: int, key: Seq<u8>)
    requires
        distinct(ss),
        0 <= i < ss.len(),
    ensures
        distinct(ss.remove(i)),
        lookup(ss.remove(i), key) == if key == ss[i].key@ {
            None
        } else {
            lookup(ss, key)
        },
    decreases ss.len(),
{
    if i < ss.len() - 1 {
        assert(ss.remove(i).drop_last() =~= ss.drop_last().remove(i));
        assert(ss.remove(i).last() == ss.last());
        lemma_lookup_remove(ss.drop_last(), i, key);
    } else {
        assert(ss.remove(i) =~= ss.drop_last());
        if key == ss[i].key@ {
            lemma_lookup_absent(ss.drop_last(), key);
        }
    }
}

impl Records {
    /// The store's invariant: no address holds two records.
    pub closed spec fn wf(&self) -> bool {
        distinct(self.slots@)
    }

    /// The record at each address that holds one.
    pub closed spec fn view(&self) -> Map<Seq<u8>, VaultState> {
        Map::new(
            |key: Seq<u8>| lookup(self.slots@, key) is Some,
            |key: Seq<u8>| lookup(self.slots@, key).unwrap(),
        )
    }

    /// A store that holds no record.
    pub fn new() -> (r: Records)
        ensures
            r.wf(),
            r@ == Map::<Seq<u8>, VaultState>::empty(),
    {
        let r = Records { slots: Vec::new() };
        assert(r@ =~= Map::<Seq<u8>, VaultState>::empty());
        r
    }

    fn position(&self, key: &Address) -> (r: Option<usize>)
        ensures
            match r {
                Some(i) => i < self.slots@.len() && self.slots@[i as int].key@ == key@,
                None => forall|i: int| 0 <= i < self.slots@.len() ==> self.slots@[i].key@ != key@,
            },
    {
        let mut i: usize = 0;
        while i < self.slots.len()
            invariant
                i <= self.slots@.len(),
                forall|j: int| 0 <= j < i ==> self.slots@[j].key@ != key@,
            decreases self.slots@.len() - i,
        {
            if self.slots[i].key.same(key) {
                return Some(i);
            }
            i = i + 1;
        }
        None
    }

    /// Reads the record at `key`, if one lives there.
    pub fn get(&self, key: &Address) -> (r: Option<VaultState>)
        requires
            self.wf(),
        ensures
            r == if self@.dom().contains(key@) {
                Some(self@[key@])
            } else {
                None
            },
    {
        match self.position(key) {
            Some(i) => {
                proof {
                    lemma_lookup_at(self.slots@, i as int);
                }
                Some(self.slots[i].data)
            },
            None => {
                proof {
                    lemma_lookup_absent(self.slots@, key@);
                }
                None
            },
        }
    }

    /// Stores a new record at `key`. Refuses, with nothing changed, where
    /// the address already holds one.
    pub fn allocate(&mut self, key: &Address, data: VaultState) -> (r: Result<(), VaultError>)
        requires
            old(self).wf(),
        ensures
            final(self).wf(),
            match r {
                Ok(_) => !old(self)@.dom().contains(key@) && final(self)@ == old(self)@.insert(
                    key@,
                    data,
                ),
                Err(e) => e == VaultError::AlreadyExists && old(self)@.dom().contains(key@)
                    && final(self)@ == old(self)@,
            },
    {
        match self.position(key) {
            Some(i) => {
                proof {
                    lemma_lookup_at(self.slots@, i as int);
                }
                Err(VaultError::AlreadyExists)
            },
            None => {
                proof {
                    lemma_lookup_absent(self.slots@, key@);
                }
                self.slots.push(Slot { key: *key, data });
                assert(self.slots@.drop_last() =~= old(self).slots@);
                assert(self@ =~= old(self)@.insert(key@, data));
                Ok(())
            },
        }
    }

    /// Removes the record at `key` and hands it back. Refuses, with nothing
    /// changed, where the address holds none.
    pub fn deallocate(&mut self, key: &Address) -> (r: Result<VaultState, VaultError>)
        requires
            old(self).wf(),
        ensures
            final(self).wf(),
            match r {
                Ok(data) => old(self)@.dom().contains(key@) && data == old(self)@[key@]
                    && final(self)@ == old(self)@.remove(key@),
                Err(e) => e == VaultError::NotFound && !old(self)@.dom().contains(key@)
                    && final(self)@ == old(self)@,
            },
    {
        match self.position(key) {
            Some(i) => {
                proof {
                    lemma_lookup_at(self.slots@, i as int);
                    assert forall|other: Seq<u8>|
                        lookup(self.slots@.remove(i as int), other) == if other == key@ {
                            None
                        } else {
                            lookup(self.slots@, other)
                        } by {
                        lemma_lookup_remove(self.slots@, i as int, other);
                    }
                    lemma_lookup_remove(self.slots@, i as int, key@);
                }
                let slot = self.slots.remove(i);
                assert(self@ =~= old(self)@.remove(key@));
                Ok(slot.data)
            },
            None => {
                proof {
                    lemma_lookup_absent(self.slots@, key@);
                }
                Err(VaultError::NotFound)
            },
        }
    }
}

} // verus!
