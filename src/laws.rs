//! Properties of the contract that span several calls or every state.
use vstd::prelude::*;

use crate::contract::{too_long, Error, GoldchainSc};
use crate::key::derive_key;
use crate::store::Ledger;

verus! {

/// The first `initialize` succeeds and makes its caller the administrator.
pub proof fn lemma_first_initialize(
    pre: GoldchainSc,
    caller: Seq<u8>,
    post: GoldchainSc,
    r: Result<(), Error>,
)
    requires
        pre.admin() is None,
        GoldchainSc::initialize_spec(pre, caller, post, r),
    ensures
        r == Ok::<(), Error>(()),
        post.admin() == Some(caller),
{
}

/// Once initialized, every later `initialize` fails with `AlreadyInitialized`,
/// whoever calls it, and the administrator stays as it was.
pub proof fn lemma_initialize_not_repeatable(
    pre: GoldchainSc,
    caller: Seq<u8>,
    post: GoldchainSc,
    r: Result<(), Error>,
)
    requires
        pre.admin() is Some,
        GoldchainSc::initialize_spec(pre, caller, post, r),
    ensures
        r == Err::<(), Error>(Error::AlreadyInitialized),
        post.admin() == pre.admin(),
        post.ledgers() == pre.ledgers(),
{
}

/// Before initialization, `add_ledger` fails with `NotInitialized` for any
/// caller and stores nothing.
pub proof fn lemma_add_before_initialize(
    pre: GoldchainSc,
    caller: Seq<u8>,
    now: u64,
    tracking_id: String,
    lot_id: String,
    post: GoldchainSc,
    r: Result<(), Error>,
)
    requires
        pre.admin() is None,
        GoldchainSc::add_ledger_spec(pre, caller, now, tracking_id, lot_id, post, r),
    ensures
        r == Err::<(), Error>(Error::NotInitialized),
        post.keys() == pre.keys(),
        post.ledgers() == pre.ledgers(),
{
}

/// Called by anyone but the administrator with both ids within the limit,
/// `add_ledger` fails with `UnauthorizedAuthority` and stores nothing.
pub proof fn lemma_add_by_other_refused(
    pre: GoldchainSc,
    admin: Seq<u8>,
    caller: Seq<u8>,
    now: u64,
    tracking_id: String,
    lot_id: String,
    post: GoldchainSc,
    r: Result<(), Error>,
)
    requires
        pre.admin() == Some(admin),
        caller != admin,
        !too_long(tracking_id@),
        !too_long(lot_id@),
        GoldchainSc::add_ledger_spec(pre, caller, now, tracking_id, lot_id, post, r),
    ensures
        r == Err::<(), Error>(Error::UnauthorizedAuthority),
        post.keys() == pre.keys(),
        post.ledgers() == pre.ledgers(),
{
}

/// Once initialized, an id over the length limit makes `add_ledger` fail
/// with `StringTooLong` whoever calls it, and nothing is stored.
pub proof fn lemma_add_too_long_refused(
    pre: GoldchainSc,
    caller: Seq<u8>,
    now: u64,
    tracking_id: String,
    lot_id: String,
    post: GoldchainSc,
    r: Result<(), Error>,
)
    requires
        pre.admin() is Some,
        too_long(tracking_id@) || too_long(lot_id@),
        GoldchainSc::add_ledger_spec(pre, caller, now, tracking_id, lot_id, post, r),
    ensures
        r == Err::<(), Error>(Error::StringTooLong),
        post.keys() == pre.keys(),
        post.ledgers() == pre.ledgers(),
{
}

/// Two administrator calls of `add_ledger` with the same new pair: the first
/// stores the record, the second fails with `LedgerAlreadyExists`, and the
/// record read back afterwards is the first one, with its first timestamp.
pub proof fn lemma_add_twice(
    s0: GoldchainSc,
    admin: Seq<u8>,
    now1: u64,
    tracking_id1: String,
    lot_id1: String,
    s1: GoldchainSc,
    r1: Result<(), Error>,
    now2: u64,
    tracking_id2: String,
    lot_id2: String,
    s2: GoldchainSc,
    r2: Result<(), Error>,
)
    requires
        s0.wf(),
        s0.admin() == Some(admin),
        !too_long(tracking_id1@),
        !too_long(lot_id1@),
        s0.spec_get_ledger(tracking_id1@, lot_id1@) is None,
        tracking_id2@ == tracking_id1@,
        lot_id2@ == lot_id1@,
        GoldchainSc::add_ledger_spec(s0, admin, now1, tracking_id1, lot_id1, s1, r1),
        GoldchainSc::add_ledger_spec(s1, admin, now2, tracking_id2, lot_id2, s2, r2),
    ensures
        r1 == Ok::<(), Error>(()),
        r2 == Err::<(), Error>(Error::LedgerAlreadyExists),
        s2.spec_get_ledger(tracking_id1@, lot_id1@) == Some(
            Ledger { tracking_id: tracking_id1, lot_id: lot_id1, recorded_at: now1 },
        ),
{
    let k = derive_key(tracking_id1@, lot_id1@);
    assert(s1.keys().last() == k);
    assert(s1.keys().contains(k));
    let ks = s2.keys();
    let j = ks.index_of(k);
    let n = s0.keys().len() as int;
    assert(ks[n] == k);
    if j != n {
        assert(s0.keys()[j] == k);
        assert(s0.keys().contains(k));
    }
}

/// In a well-formed state, the stored record of a pair is what `get_ledger`
/// returns for it, and a record that `get_ledger` returns is stored and filed
/// under the pair's key.
pub proof fn lemma_get_ledger_finds_stored(s: GoldchainSc, tracking_id: Seq<char>, lot_id: Seq<char>)
    requires
        s.wf(),
    ensures
        forall|i: int|
            0 <= i < s.ledgers().len() && #[trigger] s.ledgers()[i].tracking_id@ == tracking_id
                && s.ledgers()[i].lot_id@ == lot_id ==> s.spec_get_ledger(tracking_id, lot_id)
                == Some(s.ledgers()[i]),
        s.spec_get_ledger(tracking_id, lot_id) matches Some(r) ==> s.ledgers().contains(r)
            && derive_key(r.tracking_id@, r.lot_id@) == derive_key(tracking_id, lot_id),
{
    let k = derive_key(tracking_id, lot_id);
    let ks = s.keys();
    assert forall|i: int|
        0 <= i < s.ledgers().len() && #[trigger] s.ledgers()[i].tracking_id@ == tracking_id
            && s.ledgers()[i].lot_id@ == lot_id implies s.spec_get_ledger(tracking_id, lot_id)
        == Some(s.ledgers()[i]) by {
        assert(ks[i] == k);
        assert(ks.contains(k));
    }
    if ks.contains(k) {
        let j = ks.index_of(k);
        assert(ks[j] == derive_key(s.ledgers()[j].tracking_id@, s.ledgers()[j].lot_id@));
        assert(s.ledgers().contains(s.ledgers()[j]));
    }
}

/// `get_ledger` finds a record for a pair exactly when that pair is stored,
/// where no stored pair other than it has the same key.
pub proof fn lemma_get_ledger_iff_stored(s: GoldchainSc, tracking_id: Seq<char>, lot_id: Seq<char>)
    requires
        s.wf(),
        forall|i: int|
            0 <= i < s.ledgers().len() && #[trigger] derive_key(
                s.ledgers()[i].tracking_id@,
                s.ledgers()[i].lot_id@,
            ) == derive_key(tracking_id, lot_id) ==> s.ledgers()[i].tracking_id@ == tracking_id
                && s.ledgers()[i].lot_id@ == lot_id,
    ensures
        s.spec_get_ledger(tracking_id, lot_id) is Some <==> exists|i: int|
            0 <= i < s.ledgers().len() && #[trigger] s.ledgers()[i].tracking_id@ == tracking_id
                && s.ledgers()[i].lot_id@ == lot_id,
{
    lemma_get_ledger_finds_stored(s, tracking_id, lot_id);
    if s.spec_get_ledger(tracking_id, lot_id) is Some {
        let r = s.spec_get_ledger(tracking_id, lot_id)->Some_0;
        let i = choose|i: int| 0 <= i < s.ledgers().len() && s.ledgers()[i] == r;
        assert(derive_key(s.ledgers()[i].tracking_id@, s.ledgers()[i].lot_id@) == derive_key(
            tracking_id,
            lot_id,
        ));
        assert(s.ledgers()[i].tracking_id@ == tracking_id);
    }
}

/// One state-changing call on the contract, as a law over runs sees it.
pub enum Call {
    Initialize { caller: Seq<u8> },
    AddLedger { caller: Seq<u8>, now: u64, tracking_id: String, lot_id: String },
}

/// `post` and `r` are what `call` may give on `pre`.
pub open spec fn step(pre: GoldchainSc, call: Call, post: GoldchainSc, r: Result<(), Error>) -> bool {
    match call {
        Call::Initialize { caller } => GoldchainSc::initialize_spec(pre, caller, post, r),
        Call::AddLedger { caller, now, tracking_id, lot_id } => GoldchainSc::add_ledger_spec(
            pre,
            caller,
            now,
            tracking_id,
            lot_id,
            post,
            r,
        ),
    }
}

/// `states` is a run of `calls` with `results`: call `i` leads from
/// `states[i]` to `states[i + 1]` and returns `results[i]`.
pub open spec fn is_run(states: Seq<GoldchainSc>, calls: Seq<Call>, results: Seq<Result<(), Error>>) -> bool {
    &&& states.len() == calls.len() + 1
    &&& results.len() == calls.len()
    &&& forall|i: int|
        0 <= i < calls.len() ==> #[trigger] step(states[i], calls[i], states[i + 1], results[i])
}

/// The caller of the first `initialize` among the first `k` calls, if any.
pub open spec fn first_initializer(calls: Seq<Call>, k: int) -> Option<Seq<u8>>
    decreases k,
{
    if k <= 0 {
        None
    } else {
        match first_initializer(calls, k - 1) {
            Some(a) => Some(a),
            None => match calls[k - 1] {
                Call::Initialize { caller } => Some(caller),
                Call::AddLedger { .. } => None,
            },
        }
    }
}

/// The records that the successful `add_ledger` calls among the first `k`
/// calls stored, in call order.
pub open spec fn added_records(calls: Seq<Call>, results: Seq<Result<(), Error>>, k: int) -> Seq<Ledger>
    decreases k,
{
    if k <= 0 {
        Seq::empty()
    } else {
        let before = added_records(calls, results, k - 1);
        match calls[k - 1] {
            Call::AddLedger { caller, now, tracking_id, lot_id } => if results[k - 1] is Ok {
                before.push(Ledger { tracking_id, lot_id, recorded_at: now })
            } else {
                before
            },
            Call::Initialize { .. } => before,
        }
    }
}

/// The administrator after the first `k` calls of a run from an uninitialized state.
proof fn lemma_run_admin_prefix(
    states: Seq<GoldchainSc>,
    calls: Seq<Call>,
    results: Seq<Result<(), Error>>,
    k: int,
)
    requires
        is_run(states, calls, results),
        states[0].admin() is None,
        0 <= k <= calls.len(),
    ensures
        states[k].admin() == first_initializer(calls, k),
    decreases k,
{
    if k > 0 {
        lemma_run_admin_prefix(states, calls, results, k - 1);
        assert(step(states[k - 1], calls[k - 1], states[(k - 1) + 1], results[k - 1]));
    }
}

/// Over any run of calls from an uninitialized state, in any order and
/// whatever their outcomes: the first `initialize` succeeds and makes its
/// caller the administrator, every later one fails with `AlreadyInitialized`,
/// and from then on the administrator never changes.
pub proof fn lemma_run_initializes_once(
    states: Seq<GoldchainSc>,
    calls: Seq<Call>,
    results: Seq<Result<(), Error>>,
)
    requires
        is_run(states, calls, results),
        states[0].admin() is None,
    ensures
        forall|k: int| 0 <= k <= calls.len() ==> #[trigger] states[k].admin() == first_initializer(calls, k),
        forall|i: int|
            0 <= i < calls.len() && #[trigger] calls[i] is Initialize ==> results[i] == (if first_initializer(
                calls,
                i,
            ) is None {
                Ok::<(), Error>(())
            } else {
                Err::<(), Error>(Error::AlreadyInitialized)
            }),
{
    assert forall|k: int| 0 <= k <= calls.len() implies #[trigger] states[k].admin() == first_initializer(calls, k) by {
        lemma_run_admin_prefix(states, calls, results, k);
    }
    assert forall|i: int|
        0 <= i < calls.len() && #[trigger] calls[i] is Initialize implies results[i] == (if first_initializer(
            calls,
            i,
        ) is None {
            Ok::<(), Error>(())
        } else {
            Err::<(), Error>(Error::AlreadyInitialized)
        }) by {
        lemma_run_admin_prefix(states, calls, results, i);
        assert(step(states[i], calls[i], states[i + 1], results[i]));
    }
}

/// The records after the first `k` calls of a run.
proof fn lemma_run_listing_prefix(
    states: Seq<GoldchainSc>,
    calls: Seq<Call>,
    results: Seq<Result<(), Error>>,
    k: int,
)
    requires
        is_run(states, calls, results),
        0 <= k <= calls.len(),
    ensures
        states[k].ledgers() == states[0].ledgers() + added_records(calls, results, k),
    decreases k,
{
    if k == 0 {
        assert(states[0].ledgers() =~= states[0].ledgers() + Seq::<Ledger>::empty());
    } else {
        lemma_run_listing_prefix(states, calls, results, k - 1);
        assert(step(states[k - 1], calls[k - 1], states[(k - 1) + 1], results[k - 1]));
        assert(states[k].ledgers() =~= states[0].ledgers() + added_records(calls, results, k));
    }
}

/// Over any run of calls, in any order and whatever their outcomes, the
/// listing afterwards is the listing before, followed by one record for each
/// successful `add_ledger` call, in call order, each made of that call's pair
/// and timestamp. From a fresh state it holds exactly those records.
pub proof fn lemma_run_listing(states: Seq<GoldchainSc>, calls: Seq<Call>, results: Seq<Result<(), Error>>)
    requires
        is_run(states, calls, results),
    ensures
        states.last().ledgers() == states[0].ledgers() + added_records(calls, results, calls.len() as int),
        states[0].ledgers().len() == 0 ==> states.last().ledgers() == added_records(
            calls,
            results,
            calls.len() as int,
        ),
{
    lemma_run_listing_prefix(states, calls, results, calls.len() as int);
    assert(states[0].ledgers().len() == 0 ==> states[0].ledgers() + added_records(
        calls,
        results,
        calls.len() as int,
    ) =~= added_records(calls, results, calls.len() as int));
}

} // verus!
