//! The records that mirror a node's invoices and payments.

use vstd::prelude::*;
use vstd::string::*;

use crate::text::{copy_text, same_text, text_of};

verus! {

/// The two kinds of record.
#[derive(Debug, Clone, Copy, PartialEq, Eq, Structural)]
pub enum TxType {
    /// A request for payment that this node issued.
    Invoice,
    /// A transfer that this node sends to pay someone else's request.
    Payment,
}

impl TxType {
    /// The name under which the kind is stored and sent.
    pub open spec fn name(self) -> Seq<char> {
        match self {
            TxType::Invoice => "invoice"@,
            TxType::Payment => "payment"@,
        }
    }

    /// The kind that a name stands for.
    pub open spec fn named(name: Seq<char>) -> Option<TxType> {
        if name == "invoice"@ {
            Some(TxType::Invoice)
        } else if name == "payment"@ {
            Some(TxType::Payment)
        } else {
            None
        }
    }

    /// The name of the kind.
    pub fn as_str(&self) -> (name: &'static str)
        ensures
            name@ == self.name(),
    {
        match self {
            TxType::Invoice => "invoice",
            TxType::Payment => "payment",
        }
    }

    /// The kind with the given name, if there is one.
    pub fn from_str(s: &str) -> (kind: Option<Self>)
        ensures
            kind == Self::named(s@),
    {
        if same_text(s, "invoice") {
            Some(TxType::Invoice)
        } else if same_text(s, "payment") {
            Some(TxType::Payment)
        } else {
            None
        }
    }

    /// Every kind is found again under its name.
    pub proof fn lemma_name_round_trip(self)
        ensures
            Self::named(self.name()) == Some(self),
    {
        reveal_strlit("invoice");
        reveal_strlit("payment");
        assert("invoice"@[0] != "payment"@[0]);
    }
}

/// Where a record stands in its life.
#[derive(Debug, Clone, Copy, PartialEq, Eq, Structural)]
pub enum TxStatus {
    Pending,
    Succeeded,
    Failed,
    Expired,
}

impl TxStatus {
    /// The name under which the status is stored and sent.
    pub open spec fn name(self) -> Seq<char> {
        match self {
            TxStatus::Pending => "pending"@,
            TxStatus::Succeeded => "succeeded"@,
            TxStatus::Failed => "failed"@,
            TxStatus::Expired => "expired"@,
        }
    }

    /// The status that a name stands for.
    pub open spec fn named(name: Seq<char>) -> Option<TxStatus> {
        if name == "pending"@ {
            Some(TxStatus::Pending)
        } else if name == "succeeded"@ {
            Some(TxStatus::Succeeded)
        } else if name == "failed"@ {
            Some(TxStatus::Failed)
        } else if name == "expired"@ {
            Some(TxStatus::Expired)
        } else {
            None
        }
    }

    /// No transition leaves a status of this kind.
    pub open spec fn terminal(self) -> bool {
        self != TxStatus::Pending
    }

    /// Whether a record of the given kind may pass from this status to
    /// `next`: a pending record may stay pending, succeed, fail if it is a
    /// payment, or expire if it is an invoice.
    pub open spec fn may_become(self, kind: TxType, next: TxStatus) -> bool {
        self == TxStatus::Pending && match next {
            TxStatus::Pending => true,
            TxStatus::Succeeded => true,
            TxStatus::Failed => kind == TxType::Payment,
            TxStatus::Expired => kind == TxType::Invoice,
        }
    }

    /// The name of the status.
    pub fn as_str(&self) -> (name: &'static str)
        ensures
            name@ == self.name(),
    {
        match self {
            TxStatus::Pending => "pending",
            TxStatus::Succeeded => "succeeded",
            TxStatus::Failed => "failed",
            TxStatus::Expired => "expired",
        }
    }

    /// The status with the given name, if there is one.
    pub fn from_str(s: &str) -> (status: Option<Self>)
        ensures
            status == Self::named(s@),
    {
        if same_text(s, "pending") {
            Some(TxStatus::Pending)
        } else if same_text(s, "succeeded") {
            Some(TxStatus::Succeeded)
        } else if same_text(s, "failed") {
            Some(TxStatus::Failed)
        } else if same_text(s, "expired") {
            Some(TxStatus::Expired)
        } else {
            None
        }
    }

    /// Whether no transition leaves this status.
    pub fn is_terminal(&self) -> (terminal: bool)
        ensures
            terminal == self.terminal(),
    {
        !matches!(self, TxStatus::Pending)
    }

    /// Every status is found again under its name.
    pub proof fn lemma_name_round_trip(self)
        ensures
            Self::named(self.name()) == Some(self),
    {
        reveal_strlit("pending");
        reveal_strlit("succeeded");
        reveal_strlit("failed");
        reveal_strlit("expired");
        assert("pending"@[0] != "succeeded"@[0]);
        assert("pending"@[0] != "failed"@[0]);
        assert("pending"@[0] != "expired"@[0]);
        assert("succeeded"@[0] != "failed"@[0]);
        assert("succeeded"@[0] != "expired"@[0]);
        assert("failed"@[0] != "expired"@[0]);
    }
}

/// A point in time: whole seconds since the start of 1970 in UTC, and the
/// nanoseconds past them.
#[derive(Debug, Clone, Copy, PartialEq, Eq, Structural)]
pub struct Timestamp {
    pub secs: i64,
    pub nanos: u32,
}

impl Timestamp {
    /// This point in time comes before `other`.
    pub open spec fn before(self, other: Timestamp) -> bool {
        self.secs < other.secs || (self.secs == other.secs && self.nanos < other.nanos)
    }

    /// The later of two points in time.
    pub open spec fn max(self, other: Timestamp) -> Timestamp {
        if self.before(other) {
            other
        } else {
            self
        }
    }

    /// Whether this point in time comes before `other`.
    pub fn is_before(&self, other: &Timestamp) -> (before: bool)
        ensures
            before == self.before(*other),
    {
        self.secs < other.secs || (self.secs == other.secs && self.nanos < other.nanos)
    }

    /// The later of two points in time.
    pub fn later(self, other: Timestamp) -> (later: Timestamp)
        ensures
            later == self.max(other),
    {
        if self.is_before(&other) {
            other
        } else {
            self
        }
    }
}

/// What identifies a record: its kind and its payment hash.
pub type Key = (TxType, Seq<char>);

/// The mathematical content of a `Transaction`.
pub struct Record {
    pub id: i64,
    pub tx_type: TxType,
    pub payment_hash: Seq<char>,
    pub payment_request: Seq<char>,
    pub amount_sats: i64,
    pub description: Option<Seq<char>>,
    pub status: TxStatus,
    pub preimage: Option<Seq<char>>,
    pub fee_sats: Option<i64>,
    pub failure_reason: Option<Seq<char>>,
    pub expires_at: Option<Timestamp>,
    pub node_id: Seq<char>,
    pub created_at: Timestamp,
    pub updated_at: Timestamp,
}

impl Record {
    /// The key of the record.
    pub open spec fn key(self) -> Key {
        (self.tx_type, self.payment_hash)
    }
}

/// An invoice or a payment as the store holds it.
#[derive(Debug, Clone, PartialEq, Eq)]
pub struct Transaction {
    /// The number that the store gave the record.
    pub id: i64,
    pub tx_type: TxType,
    /// The payment hash, in hexadecimal.
    pub payment_hash: String,
    /// The payment request as it was written.
    pub payment_request: String,
    /// The amount in the smallest unit.
    pub amount_sats: i64,
    pub description: Option<String>,
    pub status: TxStatus,
    /// The proof of settlement, once there is one.
    pub preimage: Option<String>,
    pub fee_sats: Option<i64>,
    pub failure_reason: Option<String>,
    pub expires_at: Option<Timestamp>,
    /// The identity of the node that the record belongs to.
    pub node_id: String,
    pub created_at: Timestamp,
    pub updated_at: Timestamp,
}

impl View for Transaction {
    type V = Record;

    open spec fn view(&self) -> Record {
        Record {
            id: self.id,
            tx_type: self.tx_type,
            payment_hash: self.payment_hash@,
            payment_request: self.payment_request@,
            amount_sats: self.amount_sats,
            description: text_of(self.description),
            status: self.status,
            preimage: text_of(self.preimage),
            fee_sats: self.fee_sats,
            failure_reason: text_of(self.failure_reason),
            expires_at: self.expires_at,
            node_id: self.node_id@,
            created_at: self.created_at,
            updated_at: self.updated_at,
        }
    }
}

impl Transaction {
    /// The kind of the record.
    pub fn tx_type(&self) -> (kind: TxType)
        ensures
            kind == self@.tx_type,
    {
        self.tx_type
    }

    /// The status of the record.
    pub fn status(&self) -> (status: TxStatus)
        ensures
            status == self@.status,
    {
        self.status
    }

    /// The record that a store makes of a candidate: numbered `id`, created
    /// and last changed at `now`, with no settlement proof, fee or failure.
    pub fn create(new_tx: NewTransaction, id: i64, now: Timestamp) -> (tx: Transaction)
        ensures
            tx@ == new_tx@.created(id, now),
    {
        Transaction {
            id,
            tx_type: new_tx.tx_type,
            payment_hash: new_tx.payment_hash,
            payment_request: new_tx.payment_request,
            amount_sats: new_tx.amount_sats,
            description: new_tx.description,
            status: new_tx.status,
            preimage: None,
            fee_sats: None,
            failure_reason: None,
            expires_at: new_tx.expires_at,
            node_id: new_tx.node_id,
            created_at: now,
            updated_at: now,
        }
    }

    /// A copy of the record.
    pub fn duplicate(&self) -> (copy: Transaction)
        ensures
            copy@ == self@,
    {
        Transaction {
            id: self.id,
            tx_type: self.tx_type,
            payment_hash: self.payment_hash.clone(),
            payment_request: self.payment_request.clone(),
            amount_sats: self.amount_sats,
            description: copy_text(&self.description),
            status: self.status,
            preimage: copy_text(&self.preimage),
            fee_sats: self.fee_sats,
            failure_reason: copy_text(&self.failure_reason),
            expires_at: self.expires_at,
            node_id: self.node_id.clone(),
            created_at: self.created_at,
            updated_at: self.updated_at,
        }
    }

    /// Gives the record another status, changed at `now`.
    pub fn set_status(&mut self, status: TxStatus, now: Timestamp)
        ensures
            final(self)@ == old(self)@.with_status(status, now),
    {
        self.status = status;
        self.updated_at = now;
    }

    /// Applies the changes of `update` to the record.
    pub fn apply(&mut self, update: UpdateTransaction)
        ensures
            final(self)@ == old(self)@.updated(update@),
    {
        if let Some(status) = update.status {
            self.status = status;
        }
        if update.preimage.is_some() {
            self.preimage = update.preimage;
        }
        if update.fee_sats.is_some() {
            self.fee_sats = update.fee_sats;
        }
        if update.failure_reason.is_some() {
            self.failure_reason = update.failure_reason;
        }
        self.updated_at = update.updated_at;
    }
}

impl Record {
    /// The record with another status, changed at `now`.
    pub open spec fn with_status(self, status: TxStatus, now: Timestamp) -> Record {
        Record { status, updated_at: now, ..self }
    }

    /// The record after the changes of `update`: what an update leaves open
    /// stays as it was.
    pub open spec fn updated(self, update: Changes) -> Record {
        Record {
            status: match update.status {
                Some(status) => status,
                None => self.status,
            },
            preimage: if update.preimage is Some {
                update.preimage
            } else {
                self.preimage
            },
            fee_sats: if update.fee_sats is Some {
                update.fee_sats
            } else {
                self.fee_sats
            },
            failure_reason: if update.failure_reason is Some {
                update.failure_reason
            } else {
                self.failure_reason
            },
            updated_at: update.updated_at,
            ..self
        }
    }
}

/// The mathematical content of a `NewTransaction`.
pub struct Candidate {
    pub tx_type: TxType,
    pub payment_hash: Seq<char>,
    pub payment_request: Seq<char>,
    pub amount_sats: i64,
    pub description: Option<Seq<char>>,
    pub status: TxStatus,
    pub expires_at: Option<Timestamp>,
    pub node_id: Seq<char>,
}

impl Candidate {
    /// The key of the record that the candidate describes.
    pub open spec fn key(self) -> Key {
        (self.tx_type, self.payment_hash)
    }

    /// The record that a store makes of the candidate.
    pub open spec fn created(self, id: i64, now: Timestamp) -> Record {
        Record {
            id,
            tx_type: self.tx_type,
            payment_hash: self.payment_hash,
            payment_request: self.payment_request,
            amount_sats: self.amount_sats,
            description: self.description,
            status: self.status,
            preimage: None,
            fee_sats: None,
            failure_reason: None,
            expires_at: self.expires_at,
            node_id: self.node_id,
            created_at: now,
            updated_at: now,
        }
    }
}

/// A record as it was observed, before the store has seen it.
#[derive(Debug, Clone, PartialEq, Eq)]
pub struct NewTransaction {
    pub tx_type: TxType,
    pub payment_hash: String,
    pub payment_request: String,
    pub amount_sats: i64,
    pub description: Option<String>,
    pub status: TxStatus,
    pub expires_at: Option<Timestamp>,
    pub node_id: String,
}

impl View for NewTransaction {
    type V = Candidate;

    open spec fn view(&self) -> Candidate {
        Candidate {
            tx_type: self.tx_type,
            payment_hash: self.payment_hash@,
            payment_request: self.payment_request@,
            amount_sats: self.amount_sats,
            description: text_of(self.description),
            status: self.status,
            expires_at: self.expires_at,
            node_id: self.node_id@,
        }
    }
}

impl NewTransaction {
    /// A candidate record with the given content.
    pub fn new(
        tx_type: TxType,
        payment_hash: String,
        payment_request: String,
        amount_sats: i64,
        description: Option<String>,
        status: TxStatus,
        expires_at: Option<Timestamp>,
        node_id: String,
    ) -> (new_tx: Self)
        ensures
            new_tx@ == (Candidate {
                tx_type,
                payment_hash: payment_hash@,
                payment_request: payment_request@,
                amount_sats,
                description: text_of(description),
                status,
                expires_at,
                node_id: node_id@,
            }),
    {
        Self {
            tx_type,
            payment_hash,
            payment_request,
            amount_sats,
            description,
            status,
            expires_at,
            node_id,
        }
    }
}

/// The mathematical content of an `UpdateTransaction`.
pub struct Changes {
    pub status: Option<TxStatus>,
    pub preimage: Option<Seq<char>>,
    pub fee_sats: Option<i64>,
    pub failure_reason: Option<Seq<char>>,
    pub updated_at: Timestamp,
}

/// Changes to a record: each part that is set replaces what the record
/// holds.
#[derive(Debug, Clone, PartialEq, Eq)]
pub struct UpdateTransaction {
    pub status: Option<TxStatus>,
    pub preimage: Option<String>,
    pub fee_sats: Option<i64>,
    pub failure_reason: Option<String>,
    pub updated_at: Timestamp,
}

impl View for UpdateTransaction {
    type V = Changes;

    open spec fn view(&self) -> Changes {
        Changes {
            status: self.status,
            preimage: text_of(self.preimage),
            fee_sats: self.fee_sats,
            failure_reason: text_of(self.failure_reason),
            updated_at: self.updated_at,
        }
    }
}

impl UpdateTransaction {
    /// Changes made at `now`.
    pub fn new(
        status: Option<TxStatus>,
        preimage: Option<String>,
        fee_sats: Option<i64>,
        failure_reason: Option<String>,
        now: Timestamp,
    ) -> (update: Self)
        ensures
            update@ == (Changes {
                status,
                preimage: text_of(preimage),
                fee_sats,
                failure_reason: text_of(failure_reason),
                updated_at: now,
            }),
    {
        Self { status, preimage, fee_sats, failure_reason, updated_at: now }
    }
}

/// The running totals that the store keeps of settled amounts.
#[derive(Debug, Clone, Copy, PartialEq, Eq, Structural)]
pub struct Balance {
    pub id: i32,
    pub received_sats: i64,
    pub paid_sats: i64,
    pub last_updated: Timestamp,
}

impl Balance {
    /// What was received less what was paid.
    pub fn total_balance(&self) -> (total: i64)
        requires
            i64::MIN <= self.received_sats - self.paid_sats <= i64::MAX,
        ensures
            total == self.received_sats - self.paid_sats,
    {
        self.received_sats - self.paid_sats
    }
}

} // verus!
