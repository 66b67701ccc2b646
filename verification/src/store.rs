//! The record store: a table of records keyed by kind and payment hash.
//!
//! No two records share a key, records are never removed, and a record's
//! status changes only through the operations of this module. Every
//! operation touches one key and is carried out in one piece.
//!
//! The table of this module lives in memory, newest record first. A durable
//! table with a unique key answers the same requests in the same way; what
//! is built on the answers, such as the upsert, is written against the
//! answers and not against this table.

use vstd::prelude::*;
use vstd::string::*;

use crate::models::{
    Candidate, Changes, Key, NewTransaction, Record, Timestamp, Transaction, TxStatus, TxType,
    UpdateTransaction,
};
use crate::text::same_text;

verus! {

/// Why the store did not do what it was asked.
#[derive(Debug, Clone, PartialEq, Eq)]
pub enum DbError {
    /// A record with the same key is already there.
    AlreadyExists,
    /// No record has the key.
    NotFound,
    /// A page was asked for with a negative limit or offset.
    InvalidPage,
    /// The store has no number left for another record.
    Full,
    /// The database refused the request or failed on it.
    Diesel(String),
    /// No connection to the database could be had.
    Pool(String),
}

impl DbError {
    /// The failure in words.
    pub open spec fn text(&self) -> Seq<char> {
        match self {
            DbError::AlreadyExists => "Database error: record already exists"@,
            DbError::NotFound => "Database error: Record not found"@,
            DbError::InvalidPage => "Database error: limit and offset must not be negative"@,
            DbError::Full => "Database error: no number left for another record"@,
            DbError::Diesel(detail) => "Database error: "@ + detail@,
            DbError::Pool(detail) => "Pool error: "@ + detail@,
        }
    }

    /// Says in words what failed.
    pub fn message(&self) -> (message: String)
        ensures
            message@ == self.text(),
    {
        match self {
            DbError::AlreadyExists => String::from_str("Database error: record already exists"),
            DbError::NotFound => String::from_str("Database error: Record not found"),
            DbError::InvalidPage => String::from_str(
                "Database error: limit and offset must not be negative",
            ),
            DbError::Full => String::from_str("Database error: no number left for another record"),
            DbError::Diesel(detail) => String::from_str("Database error: ").concat(detail.as_str()),
            DbError::Pool(detail) => String::from_str("Pool error: ").concat(detail.as_str()),
        }
    }
}

/// The mathematical content of a `DbError`.
pub enum DbFailure {
    AlreadyExists,
    NotFound,
    InvalidPage,
    Full,
    Diesel(Seq<char>),
    Pool(Seq<char>),
}

impl View for DbError {
    type V = DbFailure;

    open spec fn view(&self) -> DbFailure {
        match self {
            DbError::AlreadyExists => DbFailure::AlreadyExists,
            DbError::NotFound => DbFailure::NotFound,
            DbError::InvalidPage => DbFailure::InvalidPage,
            DbError::Full => DbFailure::Full,
            DbError::Diesel(detail) => DbFailure::Diesel(detail@),
            DbError::Pool(detail) => DbFailure::Pool(detail@),
        }
    }
}

/// No two records have the same key.
pub open spec fn unique_keys(s: Seq<Record>) -> bool {
    forall|i: int, j: int| 0 <= i < j < s.len() ==> (#[trigger] s[i]).key() != (#[trigger] s[j]).key()
}

/// No record was created before one that stands after it.
pub open spec fn newest_first(s: Seq<Record>) -> bool {
    forall|i: int, j: int|
        0 <= i < j < s.len() ==> !(#[trigger] s[i]).created_at.before((#[trigger] s[j]).created_at)
}

/// Every record has a number between one and the count of records, and no
/// two have the same.
pub open spec fn numbered(s: Seq<Record>) -> bool {
    &&& forall|i: int| 0 <= i < s.len() ==> 0 < (#[trigger] s[i]).id <= s.len()
    &&& forall|i: int, j: int|
        0 <= i < j < s.len() ==> (#[trigger] s[i]).id != (#[trigger] s[j]).id
}

/// What holds of the records of every store.
pub open spec fn well_formed(s: Seq<Record>) -> bool {
    unique_keys(s) && newest_first(s) && numbered(s)
}

/// The record at position `i` has the key.
pub open spec fn is_position(s: Seq<Record>, key: Key, i: int) -> bool {
    0 <= i < s.len() && s[i].key() == key
}

/// A record with the key is there.
pub open spec fn holds(s: Seq<Record>, key: Key) -> bool {
    exists|i: int| is_position(s, key, i)
}

/// The position of the record with the key.
pub open spec fn position(s: Seq<Record>, key: Key) -> int {
    choose|i: int| is_position(s, key, i)
}

/// The record with the key, if there is one.
pub open spec fn lookup(s: Seq<Record>, key: Key) -> Option<Record> {
    if holds(s, key) {
        Some(s[position(s, key)])
    } else {
        None
    }
}

/// `k` is where a record created at `now` belongs: after the records created
/// later, before the others.
pub open spec fn is_slot(s: Seq<Record>, now: Timestamp, k: int) -> bool {
    &&& 0 <= k <= s.len()
    &&& forall|i: int| 0 <= i < k ==> now.before((#[trigger] s[i]).created_at)
    &&& k < s.len() ==> !now.before(s[k].created_at)
}

/// The position at which a record created at `now` is put.
pub open spec fn slot(s: Seq<Record>, now: Timestamp) -> int {
    choose|k: int| is_slot(s, now, k)
}

/// The records with `record` put where its creation time places it.
pub open spec fn inserted(s: Seq<Record>, record: Record) -> Seq<Record> {
    s.insert(slot(s, record.created_at), record)
}

/// The views of a sequence of records.
pub open spec fn records_of(txs: Seq<Transaction>) -> Seq<Record> {
    txs.map_values(|tx: Transaction| tx@)
}

/// The view of an optional record.
pub open spec fn record_of(tx: Option<Transaction>) -> Option<Record> {
    match tx {
        Some(tx) => Some(tx@),
        None => None,
    }
}

/// Where keys are unique, the record with a key stands at one position only.
pub proof fn lemma_position_unique(s: Seq<Record>, key: Key, i: int)
    requires
        unique_keys(s),
        is_position(s, key, i),
    ensures
        holds(s, key),
        position(s, key) == i,
        lookup(s, key) == Some(s[i]),
{
    let p = position(s, key);
    assert(is_position(s, key, p));
    if p < i {
        assert(s[p].key() != s[i].key());
    } else if i < p {
        assert(s[i].key() != s[p].key());
    }
}

/// The record that is found under a key has that key.
pub proof fn lemma_lookup_has_key(s: Seq<Record>, key: Key)
    ensures
        lookup(s, key) matches Some(record) ==> record.key() == key,
{
    if holds(s, key) {
        assert(is_position(s, key, position(s, key)));
    }
}

/// A record belongs at one position only.
pub proof fn lemma_slot_unique(s: Seq<Record>, now: Timestamp, k: int)
    requires
        is_slot(s, now, k),
    ensures
        slot(s, now) == k,
{
    let c = slot(s, now);
    assert(is_slot(s, now, c));
    if c < k {
        assert(now.before(s[c].created_at));
    } else if k < c {
        assert(now.before(s[k].created_at));
    }
}

/// Every sequence of records has a place for a new one.
pub proof fn lemma_slot_exists(s: Seq<Record>, now: Timestamp) -> (k: int)
    ensures
        is_slot(s, now, k),
        slot(s, now) == k,
{
    let k = first_not_later(s, now, 0);
    lemma_first_not_later(s, now, 0);
    lemma_slot_unique(s, now, k);
    k
}

spec fn first_not_later(s: Seq<Record>, now: Timestamp, from: int) -> int
    decreases s.len() - from,
{
    if 0 <= from < s.len() && now.before(s[from].created_at) {
        first_not_later(s, now, from + 1)
    } else {
        from
    }
}

proof fn lemma_first_not_later(s: Seq<Record>, now: Timestamp, from: int)
    requires
        0 <= from <= s.len(),
        forall|i: int| 0 <= i < from ==> now.before((#[trigger] s[i]).created_at),
    ensures
        is_slot(s, now, first_not_later(s, now, from)),
    decreases s.len() - from,
{
    if from < s.len() && now.before(s[from].created_at) {
        lemma_first_not_later(s, now, from + 1);
    }
}

/// Putting a record with a new key and the next number in its place keeps the
/// records well-formed.
pub proof fn lemma_inserted_well_formed(s: Seq<Record>, record: Record)
    requires
        well_formed(s),
        !holds(s, record.key()),
        record.id == s.len() + 1,
    ensures
        well_formed(inserted(s, record)),
        inserted(s, record).len() == s.len() + 1,
        holds(inserted(s, record), record.key()),
        lookup(inserted(s, record), record.key()) == Some(record),
{
    let k = lemma_slot_exists(s, record.created_at);
    let t = inserted(s, record);
    assert(t.len() == s.len() + 1);
    assert(t[k] == record);
    assert forall|i: int| 0 <= i < t.len() && i != k implies #[trigger] t[i] == s[if i < k {
        i
    } else {
        i - 1
    }] by {}
    assert forall|i: int, j: int| 0 <= i < j < t.len() implies (#[trigger] t[i]).key() != (
    #[trigger] t[j]).key() by {
        if i == k {
            assert(is_position(s, record.key(), j - 1) ==> holds(s, record.key()));
        } else if j == k {
            assert(is_position(s, record.key(), i) ==> holds(s, record.key()));
        } else {
            let a = if i < k { i } else { i - 1 };
            let b = if j < k { j } else { j - 1 };
            assert(s[a].key() != s[b].key());
        }
    }
    assert forall|i: int, j: int| 0 <= i < j < t.len() implies !(#[trigger] t[i]).created_at.before(
        (#[trigger] t[j]).created_at,
    ) by {
        if i == k {
            assert(!s[k].created_at.before(s[j - 1].created_at) || j - 1 == k);
        } else if j == k {
            assert(record.created_at.before(s[i].created_at));
        } else {
            let a = if i < k { i } else { i - 1 };
            let b = if j < k { j } else { j - 1 };
            assert(!s[a].created_at.before(s[b].created_at));
        }
    }
    assert forall|i: int, j: int| 0 <= i < j < t.len() implies (#[trigger] t[i]).id != (
    #[trigger] t[j]).id by {
        if i != k && j != k {
            let a = if i < k { i } else { i - 1 };
            let b = if j < k { j } else { j - 1 };
            assert(s[a].id != s[b].id);
        }
    }
    assert(is_position(t, record.key(), k));
    lemma_position_unique(t, record.key(), k);
}

/// Replacing a record by one with the same key, number and creation time
/// keeps the records well-formed.
pub proof fn lemma_replaced_well_formed(s: Seq<Record>, i: int, record: Record)
    requires
        well_formed(s),
        0 <= i < s.len(),
        record.key() == s[i].key(),
        record.id == s[i].id,
        record.created_at == s[i].created_at,
    ensures
        well_formed(s.update(i, record)),
        lookup(s.update(i, record), record.key()) == Some(record),
        forall|key: Key| holds(s.update(i, record), key) == holds(s, key),
{
    let t = s.update(i, record);
    assert forall|a: int, b: int| 0 <= a < b < t.len() implies (#[trigger] t[a]).key() != (
    #[trigger] t[b]).key() by {
        assert(s[a].key() != s[b].key());
    }
    assert forall|a: int, b: int| 0 <= a < b < t.len() implies !(#[trigger] t[a]).created_at.before(
        (#[trigger] t[b]).created_at,
    ) by {
        assert(!s[a].created_at.before(s[b].created_at));
    }
    assert forall|a: int, b: int| 0 <= a < b < t.len() implies (#[trigger] t[a]).id != (
    #[trigger] t[b]).id by {
        assert(s[a].id != s[b].id);
    }
    assert(is_position(t, record.key(), i));
    lemma_position_unique(t, record.key(), i);
    assert forall|key: Key| holds(t, key) == holds(s, key) by {
        if holds(t, key) {
            let p = position(t, key);
            assert(is_position(t, key, p));
            assert(is_position(s, key, p));
        }
        if holds(s, key) {
            let p = position(s, key);
            assert(is_position(s, key, p));
            assert(is_position(t, key, p));
        }
    }
}

/// What becomes of putting a candidate into the store: the new record,
/// numbered after the records that are there, or the reason why there is
/// none.
pub open spec fn insert_outcome(s: Seq<Record>, candidate: Candidate, now: Timestamp) -> Result<
    Record,
    DbFailure,
> {
    if holds(s, candidate.key()) {
        Err(DbFailure::AlreadyExists)
    } else if s.len() >= i64::MAX {
        Err(DbFailure::Full)
    } else {
        Ok(candidate.created((s.len() + 1) as i64, now))
    }
}

/// The records after a candidate was put into the store.
pub open spec fn after_insert(s: Seq<Record>, candidate: Candidate, now: Timestamp) -> Seq<Record> {
    match insert_outcome(s, candidate, now) {
        Ok(record) => inserted(s, record),
        Err(_) => s,
    }
}

/// What becomes of giving the record with a key a status, on condition that
/// the record is pending and the status is another: the changed record, or
/// nothing where no record has the key, the record has that status already,
/// or the record has reached a terminal status, which it never leaves.
pub open spec fn status_outcome(s: Seq<Record>, key: Key, status: TxStatus, now: Timestamp) -> Option<
    Record,
> {
    match lookup(s, key) {
        Some(record) => if !record.status.terminal() && record.status != status {
            Some(record.with_status(status, now))
        } else {
            None
        },
        None => None,
    }
}

/// The records after the conditional change of a status.
pub open spec fn after_status(s: Seq<Record>, key: Key, status: TxStatus, now: Timestamp) -> Seq<
    Record,
> {
    match status_outcome(s, key, status, now) {
        Some(record) => s.update(position(s, key), record),
        None => s,
    }
}

/// What becomes of changing the record with a key as an update says: the
/// changed record, or that there is no record for the update. There is none
/// where no record has the key, and none for an update that names a status
/// where the record has reached a terminal status, which it never leaves.
pub open spec fn update_outcome(s: Seq<Record>, key: Key, changes: Changes) -> Result<
    Record,
    DbFailure,
> {
    match lookup(s, key) {
        Some(record) => if changes.status is Some && record.status.terminal() {
            Err(DbFailure::NotFound)
        } else {
            Ok(record.updated(changes))
        },
        None => Err(DbFailure::NotFound),
    }
}

/// The records after an update.
pub open spec fn after_update(s: Seq<Record>, key: Key, changes: Changes) -> Seq<Record> {
    match update_outcome(s, key, changes) {
        Ok(record) => s.update(position(s, key), record),
        Err(_) => s,
    }
}

/// The page of at most `limit` records that follows the first `offset`
/// records.
pub open spec fn page(s: Seq<Record>, limit: int, offset: int) -> Seq<Record> {
    let from = if offset < s.len() {
        offset
    } else {
        s.len() as int
    };
    let to = if from + limit < s.len() {
        from + limit
    } else {
        s.len() as int
    };
    s.subrange(from, to)
}

/// Replacing a record leaves what is found under every other key as it was.
pub proof fn lemma_replaced_keeps_others(s: Seq<Record>, i: int, record: Record, key: Key)
    requires
        well_formed(s),
        0 <= i < s.len(),
        record.key() == s[i].key(),
        record.id == s[i].id,
        record.created_at == s[i].created_at,
        key != record.key(),
    ensures
        lookup(s.update(i, record), key) == lookup(s, key),
{
    let t = s.update(i, record);
    lemma_replaced_well_formed(s, i, record);
    if holds(s, key) {
        let p = position(s, key);
        assert(is_position(s, key, p));
        assert(is_position(t, key, p));
        lemma_position_unique(t, key, p);
    }
}

/// Putting a new record in its place leaves what is found under every other
/// key as it was.
pub proof fn lemma_inserted_keeps_others(s: Seq<Record>, record: Record, key: Key)
    requires
        well_formed(s),
        !holds(s, record.key()),
        record.id == s.len() + 1,
        key != record.key(),
    ensures
        lookup(inserted(s, record), key) == lookup(s, key),
{
    let t = inserted(s, record);
    let k = lemma_slot_exists(s, record.created_at);
    lemma_inserted_well_formed(s, record);
    assert(t == s.insert(k, record));
    if holds(s, key) {
        let p = position(s, key);
        assert(is_position(s, key, p));
        let q = if p < k {
            p
        } else {
            p + 1
        };
        assert(t[q] == s[p]);
        assert(is_position(t, key, q));
        lemma_position_unique(t, key, q);
    } else if holds(t, key) {
        let q = position(t, key);
        assert(is_position(t, key, q));
        let p = if q < k {
            q
        } else {
            q - 1
        };
        assert(t[q] == s[p]);
        assert(is_position(s, key, p));
    }
}

/// The four sums that a balance is made of.
pub enum Bucket {
    /// Invoices of the receiving node that are pending or have succeeded.
    Received,
    /// Payments of the sending node that have succeeded.
    Paid,
    /// Invoices of the receiving node that are pending.
    PendingReceived,
    /// Payments of the sending node that are pending.
    PendingPaid,
}

/// Whether a record counts towards a sum.
pub open spec fn in_bucket(record: Record, bucket: Bucket, receive: Seq<char>, send: Seq<char>) -> bool {
    match bucket {
        Bucket::Received => record.node_id == receive && record.tx_type == TxType::Invoice && (
        record.status == TxStatus::Pending || record.status == TxStatus::Succeeded),
        Bucket::Paid => record.node_id == send && record.tx_type == TxType::Payment
            && record.status == TxStatus::Succeeded,
        Bucket::PendingReceived => record.node_id == receive && record.tx_type == TxType::Invoice
            && record.status == TxStatus::Pending,
        Bucket::PendingPaid => record.node_id == send && record.tx_type == TxType::Payment
            && record.status == TxStatus::Pending,
    }
}

/// The sum of the amounts of the records that count towards `bucket`.
pub open spec fn bucket_total(s: Seq<Record>, bucket: Bucket, receive: Seq<char>, send: Seq<char>) -> int
    decreases s.len(),
{
    if s.len() == 0 {
        0
    } else {
        bucket_total(s.drop_last(), bucket, receive, send) + if in_bucket(
            s.last(),
            bucket,
            receive,
            send,
        ) {
            s.last().amount_sats as int
        } else {
            0
        }
    }
}

/// The latest change to a record of either node, if they have a record.
pub open spec fn latest_change(s: Seq<Record>, receive: Seq<char>, send: Seq<char>) -> Option<
    Timestamp,
>
    decreases s.len(),
{
    if s.len() == 0 {
        None
    } else {
        let before = latest_change(s.drop_last(), receive, send);
        let last = s.last();
        if last.node_id == receive || last.node_id == send {
            match before {
                Some(at) => Some(at.max(last.updated_at)),
                None => Some(last.updated_at),
            }
        } else {
            before
        }
    }
}

/// Whether a sum can be reported as a 64-bit amount.
pub open spec fn reportable(total: int) -> bool {
    i64::MIN <= total <= i64::MAX
}

/// What the store reports of the balance of two nodes.
#[derive(Debug, Clone, Copy, PartialEq, Eq, Structural)]
pub struct BalanceSummary {
    /// What the receiving node was or is to be paid.
    pub received_sats: i64,
    /// What the sending node has paid.
    pub paid_sats: i64,
    /// What the receiving node is still to be paid.
    pub pending_received_sats: i64,
    /// What the sending node is still paying.
    pub pending_paid_sats: i64,
    /// The latest change to a record of either node, or the time of asking
    /// where they have no record.
    pub last_updated: Timestamp,
}

/// The balance summary of two nodes over the given records, or nothing
/// where a sum is out of the range of 64 bits.
pub open spec fn balance_of(s: Seq<Record>, receive: Seq<char>, send: Seq<char>, now: Timestamp) -> Option<
    BalanceSummary,
> {
    let received = bucket_total(s, Bucket::Received, receive, send);
    let paid = bucket_total(s, Bucket::Paid, receive, send);
    let pending_received = bucket_total(s, Bucket::PendingReceived, receive, send);
    let pending_paid = bucket_total(s, Bucket::PendingPaid, receive, send);
    if reportable(received) && reportable(paid) && reportable(pending_received) && reportable(
        pending_paid,
    ) {
        Some(
            BalanceSummary {
                received_sats: received as i64,
                paid_sats: paid as i64,
                pending_received_sats: pending_received as i64,
                pending_paid_sats: pending_paid as i64,
                last_updated: match latest_change(s, receive, send) {
                    Some(at) => at,
                    None => now,
                },
            },
        )
    } else {
        None
    }
}

/// The table of records.
pub struct Store {
    records: Vec<Transaction>,
}

impl View for Store {
    type V = Seq<Record>;

    closed spec fn view(&self) -> Seq<Record> {
        records_of(self.records@)
    }
}

impl Store {
    /// What holds of every store at every time.
    #[verifier::type_invariant]
    pub open spec fn valid(self) -> bool {
        well_formed(self@)
    }

    /// A store without records.
    pub fn new() -> (store: Store)
        ensures
            store@ == Seq::<Record>::empty(),
    {
        let store = Store { records: Vec::new() };
        assert(store@ =~= Seq::<Record>::empty());
        store
    }

    /// The number of records.
    pub fn len(&self) -> (count: usize)
        ensures
            count == self@.len(),
            well_formed(self@),
    {
        proof {
            use_type_invariant(self);
        }
        self.records.len()
    }

    fn take_records(&mut self) -> (records: Vec<Transaction>)
        ensures
            records@ == old(self).records@,
            well_formed(records_of(records@)),
    {
        proof {
            use_type_invariant(&*self);
        }
        let mut records: Vec<Transaction> = Vec::new();
        assert(records_of(records@) =~= Seq::<Record>::empty());
        core::mem::swap(&mut self.records, &mut records);
        records
    }

    fn put_records(&mut self, records: Vec<Transaction>)
        requires
            well_formed(records_of(records@)),
        ensures
            final(self).records@ == records@,
            final(self)@ == records_of(records@),
    {
        self.records = records;
    }

    fn find_index(&self, tx_type: TxType, payment_hash: &str) -> (found: Option<usize>)
        ensures
            well_formed(self@),
            self@.len() == self.records.len(),
            match found {
                Some(i) => is_position(self@, (tx_type, payment_hash@), i as int),
                None => !holds(self@, (tx_type, payment_hash@)),
            },
    {
        proof {
            use_type_invariant(self);
        }
        let ghost key = (tx_type, payment_hash@);
        let mut i: usize = 0;
        while i < self.records.len()
            invariant
                i <= self.records.len(),
                key == (tx_type, payment_hash@),
                well_formed(self@),
                self@.len() == self.records.len(),
                forall|j: int| 0 <= j < i ==> !is_position(self@, key, j),
            decreases self.records.len() - i,
        {
            let tx = &self.records[i];
            if tx.tx_type == tx_type && same_text(tx.payment_hash.as_str(), payment_hash) {
                assert(self@[i as int] == tx@);
                return Some(i);
            }
            assert(self@[i as int] == tx@);
            i += 1;
        }
        None
    }
}

/// Puts a new record into the store.
///
/// Fails with `AlreadyExists` where a record with the candidate's key is
/// there, and leaves the store as it was.
pub fn create_transaction(store: &mut Store, new_tx: NewTransaction, now: Timestamp) -> (res: Result<
    Transaction,
    DbError,
>)
    ensures
        well_formed(old(store)@),
        well_formed(final(store)@),
        final(store)@ == after_insert(old(store)@, new_tx@, now),
        match res {
            Ok(tx) => insert_outcome(old(store)@, new_tx@, now) == Ok::<Record, DbFailure>(tx@)
                && lookup(final(store)@, new_tx@.key()) == Some(tx@),
            Err(e) => insert_outcome(old(store)@, new_tx@, now) == Err::<Record, DbFailure>(e@),
        },
{
    if store.find_index(new_tx.tx_type, new_tx.payment_hash.as_str()).is_some() {
        return Err(DbError::AlreadyExists);
    }
    let count = store.records.len();
    if count as u64 >= i64::MAX as u64 {
        return Err(DbError::Full);
    }
    let mut k: usize = 0;
    while k < store.records.len() && now.is_before(&store.records[k].created_at)
        invariant
            k <= store.records.len(),
            store.records.len() == count,
            *store == *old(store),
            forall|i: int| 0 <= i < k ==> now.before((#[trigger] store@[i]).created_at),
        decreases store.records.len() - k,
    {
        k += 1;
    }
    let tx = Transaction::create(new_tx, count as i64 + 1, now);
    let copy = tx.duplicate();
    proof {
        assert(is_slot(store@, now, k as int));
        lemma_slot_unique(store@, now, k as int);
        lemma_inserted_well_formed(store@, tx@);
        assert(records_of(store.records@.insert(k as int, tx)) =~= store@.insert(k as int, tx@));
    }
    let mut records = store.take_records();
    records.insert(k, tx);
    store.put_records(records);
    Ok(copy)
}

/// Gives the record with the key the status `status`, on condition that the
/// record is pending and the status is another, and returns the changed
/// record.
///
/// Returns nothing, and changes nothing, where no record has the key, the
/// record has that status already, or the record has reached a terminal
/// status.
pub fn update_status_if_differs(
    store: &mut Store,
    tx_type: TxType,
    payment_hash: &str,
    status: TxStatus,
    now: Timestamp,
) -> (res: Result<Option<Transaction>, DbError>)
    ensures
        well_formed(old(store)@),
        well_formed(final(store)@),
        final(store)@ == after_status(old(store)@, (tx_type, payment_hash@), status, now),
        res matches Ok(changed) && record_of(changed) == status_outcome(
            old(store)@,
            (tx_type, payment_hash@),
            status,
            now,
        ),
{
    let ghost key = (tx_type, payment_hash@);
    match store.find_index(tx_type, payment_hash) {
        None => Ok(None),
        Some(i) => {
            proof {
                lemma_position_unique(store@, key, i as int);
            }
            if store.records[i].status.is_terminal() || store.records[i].status == status {
                return Ok(None);
            }
            let mut tx = store.records[i].duplicate();
            tx.set_status(status, now);
            let copy = tx.duplicate();
            proof {
                lemma_replaced_well_formed(store@, i as int, tx@);
                assert(records_of(store.records@.update(i as int, tx)) =~= store@.update(
                    i as int,
                    tx@,
                ));
            }
            let mut records = store.take_records();
            records.set(i, tx);
            store.put_records(records);
            Ok(Some(copy))
        },
    }
}

/// Changes the record with the key as `update` says and returns it.
///
/// Fails with `NotFound` where no record has the key, and where the update
/// names a status and the record has reached a terminal status.
pub fn update_transaction_status(
    store: &mut Store,
    tx_type: TxType,
    payment_hash: &str,
    update: UpdateTransaction,
) -> (res: Result<Transaction, DbError>)
    ensures
        well_formed(old(store)@),
        well_formed(final(store)@),
        final(store)@ == after_update(old(store)@, (tx_type, payment_hash@), update@),
        match res {
            Ok(tx) => update_outcome(old(store)@, (tx_type, payment_hash@), update@) == Ok::<
                Record,
                DbFailure,
            >(tx@) && lookup(final(store)@, (tx_type, payment_hash@)) == Some(tx@),
            Err(e) => update_outcome(old(store)@, (tx_type, payment_hash@), update@) == Err::<
                Record,
                DbFailure,
            >(e@),
        },
{
    let ghost key = (tx_type, payment_hash@);
    match store.find_index(tx_type, payment_hash) {
        None => Err(DbError::NotFound),
        Some(i) => {
            proof {
                lemma_position_unique(store@, key, i as int);
            }
            if update.status.is_some() && store.records[i].status.is_terminal() {
                return Err(DbError::NotFound);
            }
            let mut tx = store.records[i].duplicate();
            tx.apply(update);
            let copy = tx.duplicate();
            proof {
                lemma_replaced_well_formed(store@, i as int, tx@);
                assert(records_of(store.records@.update(i as int, tx)) =~= store@.update(
                    i as int,
                    tx@,
                ));
            }
            let mut records = store.take_records();
            records.set(i, tx);
            store.put_records(records);
            Ok(copy)
        },
    }
}

/// The record with the key, if there is one.
pub fn get_transaction_by_hash(store: &Store, tx_type: TxType, payment_hash: &str) -> (res: Result<
    Option<Transaction>,
    DbError,
>)
    ensures
        well_formed(store@),
        res matches Ok(found) && record_of(found) == lookup(store@, (tx_type, payment_hash@)),
{
    match store.find_index(tx_type, payment_hash) {
        None => Ok(None),
        Some(i) => {
            proof {
                lemma_position_unique(store@, (tx_type, payment_hash@), i as int);
            }
            Ok(Some(store.records[i].duplicate()))
        },
    }
}

/// A page of the records, newest first: at most `limit` records after the
/// first `offset`.
///
/// Fails with `InvalidPage` where the limit or the offset is negative.
pub fn list_transactions(store: &Store, limit: i64, offset: i64) -> (res: Result<
    Vec<Transaction>,
    DbError,
>)
    ensures
        well_formed(store@),
        match res {
            Ok(txs) => limit >= 0 && offset >= 0 && records_of(txs@) == page(
                store@,
                limit as int,
                offset as int,
            ),
            Err(e) => e@ == DbFailure::InvalidPage && (limit < 0 || offset < 0),
        },
{
    let count = store.len();
    if limit < 0 || offset < 0 {
        return Err(DbError::InvalidPage);
    }
    let from: usize = if (offset as u64) < count as u64 {
        offset as usize
    } else {
        count
    };
    let to: usize = if (limit as u64) < (count - from) as u64 {
        from + limit as usize
    } else {
        count
    };
    let mut txs: Vec<Transaction> = Vec::new();
    let mut i: usize = from;
    while i < to
        invariant
            from <= i <= to <= store.records.len(),
            store@.len() == store.records.len(),
            records_of(txs@) == store@.subrange(from as int, i as int),
        decreases to - i,
    {
        let ghost before = txs@;
        let tx = store.records[i].duplicate();
        txs.push(tx);
        proof {
            assert(records_of(txs@) =~= records_of(before).push(tx@));
            assert(store@.subrange(from as int, i as int).push(store@[i as int])
                =~= store@.subrange(from as int, i + 1));
        }
        i += 1;
    }
    Ok(txs)
}

fn narrow(total: i128) -> (amount: Option<i64>)
    ensures
        amount == if reportable(total as int) {
            Some(total as i64)
        } else {
            None
        },
{
    if total < i64::MIN as i128 || total > i64::MAX as i128 {
        None
    } else {
        Some(total as i64)
    }
}

/// Sums up what two nodes received and paid.
///
/// Pending and succeeded invoices both count as received, while only
/// succeeded payments count as paid. Fails where a sum does not fit 64 bits.
/// `now` is reported as the time of the last change where neither node has a
/// record.
pub fn get_balance_summary(
    store: &Store,
    receive_node_id: &str,
    send_node_id: &str,
    now: Timestamp,
) -> (res: Result<BalanceSummary, DbError>)
    ensures
        match res {
            Ok(summary) => balance_of(store@, receive_node_id@, send_node_id@, now) == Some(
                summary,
            ),
            Err(e) => e is Diesel && balance_of(store@, receive_node_id@, send_node_id@, now)
                is None,
        },
{
    let ghost receive = receive_node_id@;
    let ghost send = send_node_id@;
    let mut received: i128 = 0;
    let mut paid: i128 = 0;
    let mut pending_received: i128 = 0;
    let mut pending_paid: i128 = 0;
    let mut latest: Option<Timestamp> = None;
    let count = store.len();
    let mut i: usize = 0;
    while i < count
        invariant
            i <= count,
            count == store.records.len(),
            store@.len() == count,
            receive == receive_node_id@,
            send == send_node_id@,
            received == bucket_total(store@.take(i as int), Bucket::Received, receive, send),
            paid == bucket_total(store@.take(i as int), Bucket::Paid, receive, send),
            pending_received == bucket_total(
                store@.take(i as int),
                Bucket::PendingReceived,
                receive,
                send,
            ),
            pending_paid == bucket_total(
                store@.take(i as int),
                Bucket::PendingPaid,
                receive,
                send,
            ),
            latest == latest_change(store@.take(i as int), receive, send),
            -(i * 0x8000_0000_0000_0000) <= received <= i * 0x8000_0000_0000_0000,
            -(i * 0x8000_0000_0000_0000) <= paid <= i * 0x8000_0000_0000_0000,
            -(i * 0x8000_0000_0000_0000) <= pending_received <= i * 0x8000_0000_0000_0000,
            -(i * 0x8000_0000_0000_0000) <= pending_paid <= i * 0x8000_0000_0000_0000,
        decreases count - i,
    {
        let tx = &store.records[i];
        proof {
            assert(store@.take(i + 1).drop_last() =~= store@.take(i as int));
            assert(store@.take(i + 1).last() == tx@);
        }
        let amount = tx.amount_sats as i128;
        let of_receiver = same_text(tx.node_id.as_str(), receive_node_id);
        let of_sender = same_text(tx.node_id.as_str(), send_node_id);
        let is_invoice = matches!(tx.tx_type, TxType::Invoice);
        let is_payment = matches!(tx.tx_type, TxType::Payment);
        let pending = matches!(tx.status, TxStatus::Pending);
        let succeeded = matches!(tx.status, TxStatus::Succeeded);
        if of_receiver && is_invoice && (pending || succeeded) {
            received = received + amount;
        }
        if of_sender && is_payment && succeeded {
            paid = paid + amount;
        }
        if of_receiver && is_invoice && pending {
            pending_received = pending_received + amount;
        }
        if of_sender && is_payment && pending {
            pending_paid = pending_paid + amount;
        }
        if of_receiver || of_sender {
            latest = match latest {
                Some(at) => Some(at.later(tx.updated_at)),
                None => Some(tx.updated_at),
            };
        }
        i += 1;
    }
    proof {
        assert(store@.take(i as int) =~= store@);
    }
    let last_updated = match latest {
        Some(at) => at,
        None => now,
    };
    match (narrow(received), narrow(paid), narrow(pending_received), narrow(pending_paid)) {
        (Some(received_sats), Some(paid_sats), Some(pending_received_sats), Some(pending_paid_sats)) => Ok(
            BalanceSummary {
                received_sats,
                paid_sats,
                pending_received_sats,
                pending_paid_sats,
                last_updated,
            },
        ),
        _ => Err(DbError::Diesel(String::from_str("bigint out of range"))),
    }
}

} // verus!
