//! The contract's state machine: one-time initialization, the administrator
//! check, and the operations on the ledger store.
use vstd::prelude::*;

use crate::key::{derive_key, make_key, same_key, text_bytes};
use crate::store::{lookup, Ledger, LedgerStore};

verus! {

/// The longest text, in bytes, that a record may hold in either id.
pub const MAX_TEXT_BYTES: usize = 256;

/// What an operation can fail with. Every failure leaves the state unchanged.
#[derive(Debug, Clone, Copy, PartialEq, Eq, Structural)]
pub enum Error {
    UnauthorizedAuthority,
    AlreadyInitialized,
    NotInitialized,
    LedgerAlreadyExists,
    StringTooLong,
}

/// The authenticated identity of a caller, as the host hands it over.
#[derive(Debug, Clone, Copy, PartialEq, Eq)]
pub struct AccountId(pub [u8; 32]);

impl View for AccountId {
    type V = Seq<u8>;

    open spec fn view(&self) -> Seq<u8> {
        self.0@
    }
}

/// The one-time configuration: who may add records.
#[derive(Debug, Clone, Copy, PartialEq, Eq)]
pub struct Config {
    pub admin: AccountId,
}

/// Whether a text is over the length limit.
pub open spec fn too_long(s: Seq<char>) -> bool {
    text_bytes(s).len() > MAX_TEXT_BYTES
}

/// Fails with `StringTooLong` when `s` holds more than the limit of bytes.
pub fn validate_string_length(s: &str) -> (r: Result<(), Error>)
    ensures
        r == (if too_long(s@) {
            Err::<(), Error>(Error::StringTooLong)
        } else {
            Ok::<(), Error>(())
        }),
{
    let n = s.as_bytes().len();
    if n > MAX_TEXT_BYTES {
        return Err(Error::StringTooLong);
    }
    Ok(())
}

/// The whole state of one contract instance.
pub struct GoldchainSc {
    config: Option<Config>,
    store: LedgerStore,
}

impl Default for GoldchainSc {
    fn default() -> (r: Self)
        ensures
            r.wf(),
            r.admin() is None,
            r.ledgers() == Seq::<Ledger>::empty(),
    {
        Self::new()
    }
}

impl GoldchainSc {
    /// The administrator, once initialized.
    pub closed spec fn admin(&self) -> Option<Seq<u8>> {
        match self.config {
            Some(c) => Some(c.admin@),
            None => None,
        }
    }

    /// The stored keys, in insertion order.
    pub closed spec fn keys(&self) -> Seq<Seq<u8>> {
        self.store.key_index()
    }

    /// The stored records, in insertion order.
    pub closed spec fn ledgers(&self) -> Seq<Ledger> {
        self.store.records()
    }

    /// The record filed under the key of a pair, if any.
    pub open spec fn spec_get_ledger(&self, tracking_id: Seq<char>, lot_id: Seq<char>) -> Option<Ledger> {
        lookup(self.keys(), self.ledgers(), derive_key(tracking_id, lot_id))
    }

    /// The state invariant: one key per record, none twice, each the key
    /// derived from its record's pair, and each record within the limit.
    pub open spec fn wf(&self) -> bool {
        &&& self.keys().len() == self.ledgers().len()
        &&& self.keys().no_duplicates()
        &&& forall|i: int|
            0 <= i < self.keys().len() ==> #[trigger] self.keys()[i] == derive_key(
                self.ledgers()[i].tracking_id@,
                self.ledgers()[i].lot_id@,
            )
        &&& forall|i: int|
            0 <= i < self.ledgers().len() ==> !too_long(#[trigger] self.ledgers()[i].tracking_id@)
                && !too_long(self.ledgers()[i].lot_id@)
    }

    /// What `initialize` does: the first call makes the caller the
    /// administrator; any later one fails and changes nothing.
    pub open spec fn initialize_spec(
        pre: GoldchainSc,
        caller: Seq<u8>,
        post: GoldchainSc,
        r: Result<(), Error>,
    ) -> bool {
        &&& post.keys() == pre.keys()
        &&& post.ledgers() == pre.ledgers()
        &&& match pre.admin() {
            Some(a) => r == Err::<(), Error>(Error::AlreadyInitialized) && post.admin() == Some(a),
            None => r == Ok::<(), Error>(()) && post.admin() == Some(caller),
        }
    }

    /// The outcome of `add_ledger`, checked in this order: initialized,
    /// both ids within the limit (whoever calls), called by the administrator,
    /// pair not yet stored.
    pub open spec fn add_ledger_result(
        &self,
        caller: Seq<u8>,
        tracking_id: Seq<char>,
        lot_id: Seq<char>,
    ) -> Result<(), Error> {
        match self.admin() {
            None => Err(Error::NotInitialized),
            Some(a) => if too_long(tracking_id) || too_long(lot_id) {
                Err(Error::StringTooLong)
            } else if a != caller {
                Err(Error::UnauthorizedAuthority)
            } else if self.keys().contains(derive_key(tracking_id, lot_id)) {
                Err(Error::LedgerAlreadyExists)
            } else {
                Ok(())
            },
        }
    }

    /// What `add_ledger` does: on success the record, stamped with `now`, and
    /// its key are appended; on failure nothing changes.
    pub open spec fn add_ledger_spec(
        pre: GoldchainSc,
        caller: Seq<u8>,
        now: u64,
        tracking_id: String,
        lot_id: String,
        post: GoldchainSc,
        r: Result<(), Error>,
    ) -> bool {
        &&& r == pre.add_ledger_result(caller, tracking_id@, lot_id@)
        &&& post.admin() == pre.admin()
        &&& r is Ok ==> post.keys() == pre.keys().push(derive_key(tracking_id@, lot_id@))
            && post.ledgers() == pre.ledgers().push(
            Ledger { tracking_id, lot_id, recorded_at: now },
        )
        &&& r is Err ==> post.keys() == pre.keys() && post.ledgers() == pre.ledgers()
    }

    /// A fresh instance: not initialized, no records.
    pub fn new() -> (r: Self)
        ensures
            r.wf(),
            r.admin() is None,
            r.keys() == Seq::<Seq<u8>>::empty(),
            r.ledgers() == Seq::<Ledger>::empty(),
    {
        GoldchainSc { config: None, store: LedgerStore::new() }
    }

    /// Makes `caller` the administrator, once.
    pub fn initialize(&mut self, caller: AccountId) -> (r: Result<(), Error>)
        requires
            old(self).wf(),
        ensures
            final(self).wf(),
            Self::initialize_spec(*old(self), caller@, *final(self), r),
    {
        if self.config.is_some() {
            return Err(Error::AlreadyInitialized);
        }
        self.config = Some(Config { admin: caller });
        Ok(())
    }

    /// Fails with `NotInitialized` before initialization and with
    /// `UnauthorizedAuthority` when `caller` is not the administrator.
    fn require_admin(&self, caller: &AccountId) -> (r: Result<(), Error>)
        ensures
            r == (match self.admin() {
                None => Err::<(), Error>(Error::NotInitialized),
                Some(a) => if a != caller@ {
                    Err::<(), Error>(Error::UnauthorizedAuthority)
                } else {
                    Ok::<(), Error>(())
                },
            }),
    {
        match &self.config {
            None => Err(Error::NotInitialized),
            Some(c) => if same_key(&c.admin.0, &caller.0) {
                Ok(())
            } else {
                Err(Error::UnauthorizedAuthority)
            },
        }
    }

    /// Stores the record of a pair, stamped with `now`, on behalf of `caller`.
    pub fn add_ledger(&mut self, caller: AccountId, now: u64, tracking_id: String, lot_id: String) -> (r: Result<(), Error>)
        requires
            old(self).wf(),
        ensures
            final(self).wf(),
            Self::add_ledger_spec(*old(self), caller@, now, tracking_id, lot_id, *final(self), r),
    {
        if self.config.is_none() {
            return Err(Error::NotInitialized);
        }
        if let Err(e) = validate_string_length(tracking_id.as_str()) {
            return Err(e);
        }
        if let Err(e) = validate_string_length(lot_id.as_str()) {
            return Err(e);
        }
        if let Err(e) = self.require_admin(&caller) {
            return Err(e);
        }
        let key = make_key(tracking_id.as_str(), lot_id.as_str());
        let ghost pre = *self;
        let ledger = Ledger { tracking_id, lot_id, recorded_at: now };
        let r = self.store.insert(key, ledger);
        proof {
            if r is Ok {
                assert forall|i: int| 0 <= i < self.keys().len() implies #[trigger] self.keys()[i] == derive_key(
                    self.ledgers()[i].tracking_id@,
                    self.ledgers()[i].lot_id@,
                ) by {
                    if i < pre.keys().len() {
                        assert(self.keys()[i] == pre.keys()[i]);
                    }
                }
            }
        }
        r
    }

    /// Every record, in insertion order.
    pub fn get_all_ledgers(&self) -> (r: Vec<Ledger>)
        requires
            self.wf(),
        ensures
            r@ == self.ledgers(),
    {
        self.store.get_all()
    }

    /// The record of a pair, if one is stored.
    pub fn get_ledger(&self, tracking_id: String, lot_id: String) -> (r: Option<Ledger>)
        requires
            self.wf(),
        ensures
            r == self.spec_get_ledger(tracking_id@, lot_id@),
    {
        let key = make_key(tracking_id.as_str(), lot_id.as_str());
        self.store.get(&key)
    }

    /// The configuration, once initialized.
    pub fn get_config(&self) -> (r: Option<Config>)
        ensures
            match r {
                Some(c) => self.admin() == Some(c.admin@),
                None => self.admin() is None,
            },
    {
        match &self.config {
            Some(c) => Some(Config { admin: c.admin }),
            None => None,
        }
    }
}

} // verus!
