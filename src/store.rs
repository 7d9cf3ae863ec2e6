//! The ledger store: records filed by key, with the keys kept in insertion
//! order so that every record can be listed.
use vstd::prelude::*;

use crate::contract::Error;

verus! {

/// One tracking record. It never changes once stored.
#[derive(Debug, PartialEq, Eq)]
pub struct Ledger {
    pub tracking_id: String,
    pub lot_id: String,
    pub recorded_at: u64,
}

impl Clone for Ledger {
    fn clone(&self) -> (r: Self)
        ensures
            r == *self,
    {
        Ledger {
            tracking_id: self.tracking_id.clone(),
            lot_id: self.lot_id.clone(),
            recorded_at: self.recorded_at,
        }
    }
}

/// The record filed under `key`, where `keys[i]` is the key of `records[i]`.
pub open spec fn lookup(keys: Seq<Seq<u8>>, records: Seq<Ledger>, key: Seq<u8>) -> Option<Ledger> {
    if keys.contains(key) {
        Some(records[keys.index_of(key)])
    } else {
        None
    }
}

/// Records and their keys, position by position: `ledger_keys[i]` is the key
/// under which `ledgers[i]` is filed. The host's storage offers no iteration,
/// so the key list is what makes listing possible.
pub struct LedgerStore {
    ledgers: Vec<Ledger>,
    ledger_keys: Vec<[u8; 32]>,
}

impl LedgerStore {
    /// The keys, in insertion order.
    pub closed spec fn key_index(&self) -> Seq<Seq<u8>> {
        self.ledger_keys@.map_values(|k: [u8; 32]| k@)
    }

    /// The records, in insertion order.
    pub closed spec fn records(&self) -> Seq<Ledger> {
        self.ledgers@
    }

    /// Every key has its record, and no key is filed twice.
    pub open spec fn wf(&self) -> bool {
        &&& self.key_index().len() == self.records().len()
        &&& self.key_index().no_duplicates()
    }

    /// The record filed under `key`, if any.
    pub open spec fn spec_get(&self, key: Seq<u8>) -> Option<Ledger> {
        lookup(self.key_index(), self.records(), key)
    }

    /// An empty store.
    pub fn new() -> (r: Self)
        ensures
            r.wf(),
            r.key_index() == Seq::<Seq<u8>>::empty(),
            r.records() == Seq::<Ledger>::empty(),
    {
        let r = LedgerStore { ledgers: Vec::new(), ledger_keys: Vec::new() };
        assert(r.key_index() =~= Seq::<Seq<u8>>::empty());
        r
    }

    /// The position of `key` in the key list, if it is there.
    fn position(&self, key: &[u8; 32]) -> (r: Option<usize>)
        requires
            self.wf(),
        ensures
            match r {
                Some(i) => i < self.key_index().len() && self.key_index()[i as int] == key@,
                None => !self.key_index().contains(key@),
            },
    {
        let mut i: usize = 0;
        while i < self.ledger_keys.len()
            invariant
                i <= self.ledger_keys@.len(),
                forall|j: int| 0 <= j < i ==> self.key_index()[j] != key@,
            decreases self.ledger_keys@.len() - i,
        {
            if crate::key::same_key(&self.ledger_keys[i], key) {
                return Some(i);
            }
            i = i + 1;
        }
        None
    }

    /// Whether a record is filed under `key`.
    pub fn contains(&self, key: &[u8; 32]) -> (r: bool)
        requires
            self.wf(),
        ensures
            r == self.key_index().contains(key@),
    {
        self.position(key).is_some()
    }

    /// The record filed under `key`, if any.
    pub fn get(&self, key: &[u8; 32]) -> (r: Option<Ledger>)
        requires
            self.wf(),
        ensures
            r == self.spec_get(key@),
    {
        match self.position(key) {
            Some(i) => {
                proof {
                    let ks = self.key_index();
                    assert(ks.contains(key@));
                }
                Some(self.ledgers[i].clone())
            },
            None => None,
        }
    }

    /// Files `ledger` under `key` and appends `key` to the key list, both or
    /// neither: a key that is already filed is refused and nothing changes.
    pub fn insert(&mut self, key: [u8; 32], ledger: Ledger) -> (r: Result<(), Error>)
        requires
            old(self).wf(),
        ensures
            final(self).wf(),
            old(self).key_index().contains(key@) ==> r == Err::<(), Error>(Error::LedgerAlreadyExists)
                && final(self).key_index() == old(self).key_index()
                && final(self).records() == old(self).records(),
            !old(self).key_index().contains(key@) ==> r == Ok::<(), Error>(())
                && final(self).key_index() == old(self).key_index().push(key@)
                && final(self).records() == old(self).records().push(ledger),
    {
        if self.contains(&key) {
            return Err(Error::LedgerAlreadyExists);
        }
        let ghost old_keys = self.key_index();
        self.ledgers.push(ledger);
        self.ledger_keys.push(key);
        assert(self.key_index() =~= old_keys.push(key@));
        Ok(())
    }

    /// Every record, in insertion order.
    pub fn get_all(&self) -> (r: Vec<Ledger>)
        requires
            self.wf(),
        ensures
            r@ == self.records(),
    {
        let mut out: Vec<Ledger> = Vec::new();
        let mut i: usize = 0;
        while i < self.ledgers.len()
            invariant
                i <= self.ledgers@.len(),
                out@ == self.records().subrange(0, i as int),
            decreases self.ledgers@.len() - i,
        {
            out.push(self.ledgers[i].clone());
            i = i + 1;
            assert(out@ =~= self.records().subrange(0, i as int));
        }
        assert(out@ =~= self.records());
        out
    }
}

} // verus!
