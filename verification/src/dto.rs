//! What goes over the wire: requests, responses and change notifications.

use vstd::prelude::*;

use crate::models::{Record, Transaction};

verus! {

/// A request to issue an invoice.
#[derive(Debug, Clone, PartialEq, Eq)]
pub struct CreateInvoiceRequest {
    pub amount_sats: i64,
    pub description: Option<String>,
}

/// An issued invoice.
#[derive(Debug, Clone, PartialEq, Eq)]
pub struct InvoiceResponse {
    pub payment_request: String,
    pub payment_hash: String,
    pub amount_sats: i64,
}

/// A request to pay an invoice.
#[derive(Debug, Clone, PartialEq, Eq)]
pub struct PayInvoiceRequest {
    pub payment_request: String,
}

/// A payment that went through.
#[derive(Debug, Clone, PartialEq, Eq)]
pub struct PaymentResponse {
    pub payment_hash: String,
    pub preimage: String,
    pub amount_sats: i64,
}

/// The balance as it is reported.
#[derive(Debug, Clone, PartialEq, Eq)]
pub struct BalanceDto {
    pub received_sats: i64,
    pub paid_sats: i64,
    pub total_balance: i64,
    pub last_updated: String,
}

/// A change to a record, with the record as it stands after the change.
#[derive(Debug, Clone, PartialEq, Eq)]
pub enum InvoiceEvent {
    InvoiceCreated { tx: Transaction },
    InvoiceSettled { tx: Transaction },
    InvoiceExpired { tx: Transaction },
    PaymentSucceeded { tx: Transaction },
}

/// The mathematical content of an `InvoiceEvent`.
pub enum Change {
    InvoiceCreated(Record),
    InvoiceSettled(Record),
    InvoiceExpired(Record),
    PaymentSucceeded(Record),
}

impl Change {
    /// The record that the change is about.
    pub open spec fn record(self) -> Record {
        match self {
            Change::InvoiceCreated(record) => record,
            Change::InvoiceSettled(record) => record,
            Change::InvoiceExpired(record) => record,
            Change::PaymentSucceeded(record) => record,
        }
    }
}

impl View for InvoiceEvent {
    type V = Change;

    open spec fn view(&self) -> Change {
        match self {
            InvoiceEvent::InvoiceCreated { tx } => Change::InvoiceCreated(tx@),
            InvoiceEvent::InvoiceSettled { tx } => Change::InvoiceSettled(tx@),
            InvoiceEvent::InvoiceExpired { tx } => Change::InvoiceExpired(tx@),
            InvoiceEvent::PaymentSucceeded { tx } => Change::PaymentSucceeded(tx@),
        }
    }
}

impl InvoiceEvent {
    /// The record that the event carries.
    pub fn transaction(&self) -> (tx: &Transaction)
        ensures
            tx@ == self@.record(),
    {
        match self {
            InvoiceEvent::InvoiceCreated { tx } => tx,
            InvoiceEvent::InvoiceSettled { tx } => tx,
            InvoiceEvent::InvoiceExpired { tx } => tx,
            InvoiceEvent::PaymentSucceeded { tx } => tx,
        }
    }

    /// A copy of the event.
    pub fn duplicate(&self) -> (copy: InvoiceEvent)
        ensures
            copy@ == self@,
    {
        match self {
            InvoiceEvent::InvoiceCreated { tx } => InvoiceEvent::InvoiceCreated {
                tx: tx.duplicate(),
            },
            InvoiceEvent::InvoiceSettled { tx } => InvoiceEvent::InvoiceSettled {
                tx: tx.duplicate(),
            },
            InvoiceEvent::InvoiceExpired { tx } => InvoiceEvent::InvoiceExpired {
                tx: tx.duplicate(),
            },
            InvoiceEvent::PaymentSucceeded { tx } => InvoiceEvent::PaymentSucceeded {
                tx: tx.duplicate(),
            },
        }
    }
}

} // verus!
