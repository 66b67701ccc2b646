//! The upsert: the one path by which observed records enter the store.
//!
//! A candidate is reconciled in up to three requests to the store. First the
//! status of the record with the candidate's key is changed, on condition
//! that the record is pending and the status differs. If nothing changed,
//! the record is looked for. If it is not there, the candidate is inserted;
//! an insert that fails because another caller was first counts as no
//! change. A record that has reached a terminal status is never changed.
//!
//! `upsert_next` holds the decisions and is the same for every store.
//! `upsert_transaction` runs them against the store of this crate.

use vstd::pervasive::unreached;
use vstd::prelude::*;

use crate::models::{
    Candidate, Changes, Key, NewTransaction, Record, Timestamp, Transaction, TxStatus,
};
use crate::store::{
    after_insert, after_status, after_update, create_transaction, get_transaction_by_hash,
    holds, insert_outcome, is_position, lemma_inserted_keeps_others,
    lemma_inserted_well_formed, lemma_replaced_keeps_others, lemma_replaced_well_formed, lookup,
    position, record_of, status_outcome, unique_keys, update_status_if_differs, well_formed,
    DbError, DbFailure, Store,
};

verus! {

/// What an upsert asks of the store.
#[derive(Debug, Clone, Copy, PartialEq, Eq, Structural)]
pub enum UpsertRequest {
    /// Change the status of the record with the candidate's key, on
    /// condition that the record is pending and its status differs from the
    /// candidate's.
    UpdateStatus,
    /// Look for the record with the candidate's key.
    Find,
    /// Insert the candidate.
    Insert,
}

/// What the store answered.
#[derive(Debug, Clone, PartialEq, Eq)]
pub enum StoreReply {
    /// The request was carried out. It changed, found or inserted the
    /// record, or there was no record for it.
    Row(Option<Transaction>),
    /// The request failed.
    Failure(DbError),
}

/// What an upsert does next.
#[derive(Debug, PartialEq, Eq)]
pub enum UpsertMove {
    /// Send the store another request.
    Ask(UpsertRequest),
    /// Stop. `Ok(Some(..))` is the record as it was changed or inserted,
    /// `Ok(None)` says that the store reflected the candidate already.
    Finish(Result<Option<Transaction>, DbError>),
}

/// The mathematical content of a `StoreReply`.
pub enum Reply {
    Row(Option<Record>),
    Failure(DbFailure),
}

/// The mathematical content of a `UpsertMove`.
pub enum Move {
    Ask(UpsertRequest),
    Finish(Result<Option<Record>, DbFailure>),
}

impl View for StoreReply {
    type V = Reply;

    open spec fn view(&self) -> Reply {
        match self {
            StoreReply::Row(row) => Reply::Row(record_of(*row)),
            StoreReply::Failure(e) => Reply::Failure(e@),
        }
    }
}

impl View for UpsertMove {
    type V = Move;

    open spec fn view(&self) -> Move {
        match self {
            UpsertMove::Ask(request) => Move::Ask(*request),
            UpsertMove::Finish(Ok(row)) => Move::Finish(Ok(record_of(*row))),
            UpsertMove::Finish(Err(e)) => Move::Finish(Err(e@)),
        }
    }
}

/// The decision of an upsert after the store answered `reply` to `asked`.
///
/// A failure ends the upsert with that failure, but for an insert that found
/// the key taken: that ends it without a change. A changed or inserted record
/// ends it with the record. An unchanged status leads to the lookup, a found
/// record ends the upsert without a change, and a missing one leads to the
/// insert.
pub open spec fn upsert_move(asked: UpsertRequest, reply: Reply) -> Move {
    match (asked, reply) {
        (UpsertRequest::Insert, Reply::Failure(DbFailure::AlreadyExists)) => Move::Finish(Ok(None)),
        (_, Reply::Failure(e)) => Move::Finish(Err(e)),
        (UpsertRequest::UpdateStatus, Reply::Row(Some(record))) => Move::Finish(Ok(Some(record))),
        (UpsertRequest::UpdateStatus, Reply::Row(None)) => Move::Ask(UpsertRequest::Find),
        (UpsertRequest::Find, Reply::Row(Some(_))) => Move::Finish(Ok(None)),
        (UpsertRequest::Find, Reply::Row(None)) => Move::Ask(UpsertRequest::Insert),
        (UpsertRequest::Insert, Reply::Row(Some(record))) => Move::Finish(Ok(Some(record))),
        (UpsertRequest::Insert, Reply::Row(None)) => Move::Finish(Err(DbFailure::NotFound)),
    }
}

/// The request with which an upsert begins.
pub fn upsert_first() -> (request: UpsertRequest)
    ensures
        request == UpsertRequest::UpdateStatus,
{
    UpsertRequest::UpdateStatus
}

/// Decides what an upsert does after the store answered `reply` to `asked`.
pub fn upsert_next(asked: UpsertRequest, reply: StoreReply) -> (next: UpsertMove)
    ensures
        next@ == upsert_move(asked, reply@),
{
    match reply {
        StoreReply::Failure(e) => {
            if matches!(asked, UpsertRequest::Insert) && matches!(e, DbError::AlreadyExists) {
                UpsertMove::Finish(Ok(None))
            } else {
                UpsertMove::Finish(Err(e))
            }
        },
        StoreReply::Row(Some(tx)) => match asked {
            UpsertRequest::Find => UpsertMove::Finish(Ok(None)),
            _ => UpsertMove::Finish(Ok(Some(tx))),
        },
        StoreReply::Row(None) => match asked {
            UpsertRequest::UpdateStatus => UpsertMove::Ask(UpsertRequest::Find),
            UpsertRequest::Find => UpsertMove::Ask(UpsertRequest::Insert),
            UpsertRequest::Insert => UpsertMove::Finish(Err(DbError::NotFound)),
        },
    }
}

/// What reconciling a candidate returns: the changed record where the stored
/// record was pending with another status, nothing where the record was
/// there with that status or with a terminal one, and the new record where
/// the key was missing.
pub open spec fn upsert_outcome(s: Seq<Record>, candidate: Candidate, now: Timestamp) -> Result<
    Option<Record>,
    DbFailure,
> {
    if holds(s, candidate.key()) {
        Ok(status_outcome(s, candidate.key(), candidate.status, now))
    } else {
        match insert_outcome(s, candidate, now) {
            Ok(record) => Ok(Some(record)),
            Err(e) => Err(e),
        }
    }
}

/// The store has nothing to take from the candidate: it holds the record of
/// the candidate's key, with the candidate's status or with a terminal one.
pub open spec fn settled(s: Seq<Record>, candidate: Candidate) -> bool {
    lookup(s, candidate.key()) matches Some(record) && (record.status == candidate.status
        || record.status.terminal())
}

/// The records after a candidate was reconciled.
pub open spec fn after_upsert(s: Seq<Record>, candidate: Candidate, now: Timestamp) -> Seq<Record> {
    if holds(s, candidate.key()) {
        after_status(s, candidate.key(), candidate.status, now)
    } else {
        after_insert(s, candidate, now)
    }
}

/// The answer of the store, for `upsert_next` to read.
fn reply_of(res: Result<Option<Transaction>, DbError>) -> (reply: StoreReply)
    ensures
        reply@ == match res {
            Ok(row) => Reply::Row(record_of(row)),
            Err(e) => Reply::Failure(e@),
        },
{
    match res {
        Ok(row) => StoreReply::Row(row),
        Err(e) => StoreReply::Failure(e),
    }
}

/// Reconciles a candidate with the store: inserts it where its key is new,
/// changes the status of a pending record where it differs, and changes
/// nothing otherwise. A record that has reached a terminal status is never
/// changed.
///
/// Returns the record where the call changed the store, and `None` where the
/// store reflected the candidate already.
pub fn upsert_transaction(store: &mut Store, new_tx: NewTransaction, now: Timestamp) -> (res: Result<
    Option<Transaction>,
    DbError,
>)
    ensures
        well_formed(old(store)@),
        well_formed(final(store)@),
        final(store)@ == after_upsert(old(store)@, new_tx@, now),
        match res {
            Ok(changed) => upsert_outcome(old(store)@, new_tx@, now) == Ok::<
                Option<Record>,
                DbFailure,
            >(record_of(changed)) && settled(final(store)@, new_tx@),
            Err(e) => upsert_outcome(old(store)@, new_tx@, now) == Err::<Option<Record>, DbFailure>(
                e@,
            ),
        },
{
    proof {
        use_type_invariant(&*store);
        if upsert_outcome(store@, new_tx@, now) is Ok {
            lemma_upsert_reflects(store@, new_tx@, now);
        }
    }
    let updated = update_status_if_differs(
        store,
        new_tx.tx_type,
        new_tx.payment_hash.as_str(),
        new_tx.status,
        now,
    );
    match upsert_next(upsert_first(), reply_of(updated)) {
        UpsertMove::Finish(res) => {
            return res;
        },
        UpsertMove::Ask(_) => {},
    }
    let found = get_transaction_by_hash(store, new_tx.tx_type, new_tx.payment_hash.as_str());
    match upsert_next(UpsertRequest::Find, reply_of(found)) {
        UpsertMove::Finish(res) => {
            return res;
        },
        UpsertMove::Ask(_) => {},
    }
    let inserted = match create_transaction(store, new_tx, now) {
        Ok(tx) => Ok(Some(tx)),
        Err(e) => Err(e),
    };
    match upsert_next(UpsertRequest::Insert, reply_of(inserted)) {
        UpsertMove::Finish(res) => res,
        UpsertMove::Ask(_) => unreached(),
    }
}

/// Reconciling a candidate keeps the records well-formed: whatever the
/// candidate, no two records come to share a key.
pub proof fn lemma_upsert_well_formed(s: Seq<Record>, candidate: Candidate, now: Timestamp)
    requires
        well_formed(s),
    ensures
        well_formed(after_upsert(s, candidate, now)),
{
    let key = candidate.key();
    if holds(s, key) {
        let i = position(s, key);
        assert(is_position(s, key, i));
        if s[i].status != candidate.status {
            lemma_replaced_well_formed(s, i, s[i].with_status(candidate.status, now));
        }
    } else if s.len() < i64::MAX {
        lemma_inserted_well_formed(s, candidate.created((s.len() + 1) as i64, now));
    }
}

/// After a candidate was reconciled, the store holds the record of its key:
/// with the candidate's status where the record was new or pending, and as
/// it was where it had reached a terminal status.
pub proof fn lemma_upsert_reflects(s: Seq<Record>, candidate: Candidate, now: Timestamp)
    requires
        well_formed(s),
        upsert_outcome(s, candidate, now) is Ok,
    ensures
        settled(after_upsert(s, candidate, now), candidate),
        match lookup(s, candidate.key()) {
            Some(before) if before.status.terminal() => after_upsert(s, candidate, now) == s,
            _ => lookup(after_upsert(s, candidate, now), candidate.key()) matches Some(record)
                && record.status == candidate.status,
        },
{
    let key = candidate.key();
    if holds(s, key) {
        let i = position(s, key);
        assert(is_position(s, key, i));
        if !s[i].status.terminal() && s[i].status != candidate.status {
            lemma_replaced_well_formed(s, i, s[i].with_status(candidate.status, now));
        }
    } else {
        lemma_inserted_well_formed(s, candidate.created((s.len() + 1) as i64, now));
    }
}

/// Reconciling the same candidate a second time changes nothing and reports
/// no change, whenever the second call is made.
pub proof fn lemma_upsert_idempotent(
    s: Seq<Record>,
    candidate: Candidate,
    first: Timestamp,
    second: Timestamp,
)
    requires
        well_formed(s),
        upsert_outcome(s, candidate, first) is Ok,
    ensures
        upsert_outcome(after_upsert(s, candidate, first), candidate, second) == Ok::<
            Option<Record>,
            DbFailure,
        >(None),
        after_upsert(after_upsert(s, candidate, first), candidate, second) == after_upsert(
            s,
            candidate,
            first,
        ),
{
    lemma_upsert_reflects(s, candidate, first);
}

/// Of two calls that reconcile the same candidate, the first reports a
/// change and the second reports none and leaves the store as the first
/// left it, provided that the store had something to take from the
/// candidate, a new record or a new status for a pending one, and did not
/// fail on it.
pub proof fn lemma_upsert_reports_once(
    s: Seq<Record>,
    candidate: Candidate,
    first: Timestamp,
    second: Timestamp,
)
    requires
        well_formed(s),
        !settled(s, candidate),
        upsert_outcome(s, candidate, first) is Ok,
    ensures
        upsert_outcome(s, candidate, first) matches Ok(Some(_)),
        upsert_outcome(after_upsert(s, candidate, first), candidate, second) == Ok::<
            Option<Record>,
            DbFailure,
        >(None),
        after_upsert(after_upsert(s, candidate, first), candidate, second) == after_upsert(
            s,
            candidate,
            first,
        ),
{
    lemma_upsert_idempotent(s, candidate, first, second);
}

/// Reconciling a candidate leaves the records with other keys as they were.
pub proof fn lemma_upsert_keeps_others(
    s: Seq<Record>,
    candidate: Candidate,
    now: Timestamp,
    key: Key,
)
    requires
        well_formed(s),
        key != candidate.key(),
    ensures
        lookup(after_upsert(s, candidate, now), key) == lookup(s, key),
{
    let own = candidate.key();
    if after_upsert(s, candidate, now) != s {
        if holds(s, own) {
            let i = position(s, own);
            assert(is_position(s, own, i));
            lemma_replaced_keeps_others(s, i, s[i].with_status(candidate.status, now), key);
        } else {
            lemma_inserted_keeps_others(s, candidate.created((s.len() + 1) as i64, now), key);
        }
    }
}

/// A record that has reached a terminal status is never changed by an
/// upsert: whatever the candidate, the record stays as it is, and an upsert
/// of its own key reports no change and leaves the whole store as it was.
pub proof fn lemma_terminal_status_stays(
    s: Seq<Record>,
    candidate: Candidate,
    now: Timestamp,
    key: Key,
)
    requires
        well_formed(s),
        lookup(s, key) matches Some(record) && record.status.terminal(),
    ensures
        lookup(after_upsert(s, candidate, now), key) == lookup(s, key),
        candidate.key() == key ==> after_upsert(s, candidate, now) == s && upsert_outcome(
            s,
            candidate,
            now,
        ) == Ok::<Option<Record>, DbFailure>(None),
{
    if candidate.key() != key {
        lemma_upsert_keeps_others(s, candidate, now, key);
    }
}

/// An upsert moves a pending record to the status of the candidate, so that
/// every transition of the lifecycle of a record is carried out.
pub proof fn lemma_upsert_follows_lifecycle(s: Seq<Record>, candidate: Candidate, now: Timestamp)
    requires
        well_formed(s),
        lookup(s, candidate.key()) matches Some(record) && record.status.may_become(
            candidate.tx_type,
            candidate.status,
        ),
    ensures
        lookup(after_upsert(s, candidate, now), candidate.key()) matches Some(record)
            && record.status == candidate.status,
{
    lemma_upsert_reflects(s, candidate, now);
}

/// A change that one caller asks of the store.
pub enum StoreOp {
    /// Insert a candidate.
    Insert(Candidate, Timestamp),
    /// Change the status of the record with a key, on condition that the
    /// record is pending and the status differs.
    UpdateStatus(Key, TxStatus, Timestamp),
    /// Change the record with a key as an update says.
    Update(Key, Changes),
    /// Reconcile a candidate.
    Upsert(Candidate, Timestamp),
}

/// The records after one change.
pub open spec fn applied(s: Seq<Record>, op: StoreOp) -> Seq<Record> {
    match op {
        StoreOp::Insert(candidate, now) => after_insert(s, candidate, now),
        StoreOp::UpdateStatus(key, status, now) => after_status(s, key, status, now),
        StoreOp::Update(key, changes) => after_update(s, key, changes),
        StoreOp::Upsert(candidate, now) => after_upsert(s, candidate, now),
    }
}

/// The records after a run of changes, in the order in which the store
/// carried them out.
pub open spec fn applied_all(s: Seq<Record>, ops: Seq<StoreOp>) -> Seq<Record>
    decreases ops.len(),
{
    if ops.len() == 0 {
        s
    } else {
        applied(applied_all(s, ops.drop_last()), ops.last())
    }
}

/// One change keeps the records well-formed, and keeps the status of a
/// record that has reached a terminal status.
pub proof fn lemma_applied(s: Seq<Record>, op: StoreOp, key: Key)
    requires
        well_formed(s),
    ensures
        well_formed(applied(s, op)),
        lookup(s, key) is Some && lookup(s, key)->0.status.terminal() ==> lookup(
            applied(s, op),
            key,
        ) is Some && lookup(applied(s, op), key)->0.status == lookup(s, key)->0.status,
{
    match op {
        StoreOp::Insert(candidate, now) => {
            if !holds(s, candidate.key()) && s.len() < i64::MAX {
                let record = candidate.created((s.len() + 1) as i64, now);
                lemma_inserted_well_formed(s, record);
                if key != candidate.key() {
                    lemma_inserted_keeps_others(s, record, key);
                }
            }
        },
        StoreOp::UpdateStatus(own, status, now) => {
            if holds(s, own) {
                let i = position(s, own);
                assert(is_position(s, own, i));
                if !s[i].status.terminal() && s[i].status != status {
                    let record = s[i].with_status(status, now);
                    lemma_replaced_well_formed(s, i, record);
                    if key != own {
                        lemma_replaced_keeps_others(s, i, record, key);
                    }
                }
            }
        },
        StoreOp::Update(own, changes) => {
            if holds(s, own) {
                let i = position(s, own);
                assert(is_position(s, own, i));
                if !(changes.status is Some && s[i].status.terminal()) {
                    let record = s[i].updated(changes);
                    lemma_replaced_well_formed(s, i, record);
                    if key != own {
                        lemma_replaced_keeps_others(s, i, record, key);
                    }
                }
            }
        },
        StoreOp::Upsert(candidate, now) => {
            lemma_upsert_well_formed(s, candidate, now);
            if lookup(s, key) is Some && lookup(s, key)->0.status.terminal() {
                lemma_terminal_status_stays(s, candidate, now, key);
            }
        },
    }
}

/// However the inserts, updates and reconciliations of several callers are
/// ordered, the store never holds two records with one key.
pub proof fn lemma_keys_stay_unique(s: Seq<Record>, ops: Seq<StoreOp>)
    requires
        well_formed(s),
    ensures
        well_formed(applied_all(s, ops)),
        unique_keys(applied_all(s, ops)),
    decreases ops.len(),
{
    if ops.len() > 0 {
        lemma_keys_stay_unique(s, ops.drop_last());
        lemma_applied(applied_all(s, ops.drop_last()), ops.last(), arbitrary());
    }
}

/// Whatever is asked of the store, and in whatever order, a record that has
/// reached a terminal status keeps that status.
pub proof fn lemma_terminal_is_final(s: Seq<Record>, ops: Seq<StoreOp>, key: Key)
    requires
        well_formed(s),
        lookup(s, key) matches Some(record) && record.status.terminal(),
    ensures
        lookup(applied_all(s, ops), key) matches Some(after) && after.status == lookup(
            s,
            key,
        )->0.status,
    decreases ops.len(),
{
    if ops.len() > 0 {
        lemma_terminal_is_final(s, ops.drop_last(), key);
        lemma_keys_stay_unique(s, ops.drop_last());
        lemma_applied(applied_all(s, ops.drop_last()), ops.last(), key);
    }
}

} // verus!
