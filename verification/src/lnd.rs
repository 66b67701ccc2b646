//! What the node says, in the terms of this crate.

use vstd::prelude::*;
use vstd::string::*;

use crate::text::text_of;

verus! {

/// Why a call to the node failed.
#[derive(Debug, Clone, PartialEq, Eq)]
pub enum LndError {
    /// The node could not be reached.
    Connection(String),
    /// The node answered with an error.
    Rpc(String),
    /// Reading or writing failed.
    Io(String),
}

/// The mathematical content of an `LndError`.
pub enum LndFailure {
    Connection(Seq<char>),
    Rpc(Seq<char>),
    Io(Seq<char>),
}

impl View for LndError {
    type V = LndFailure;

    open spec fn view(&self) -> LndFailure {
        match self {
            LndError::Connection(detail) => LndFailure::Connection(detail@),
            LndError::Rpc(detail) => LndFailure::Rpc(detail@),
            LndError::Io(detail) => LndFailure::Io(detail@),
        }
    }
}

impl LndError {
    /// The failure in words.
    pub open spec fn text(&self) -> Seq<char> {
        match self {
            LndError::Connection(detail) => "Connection error: "@ + detail@,
            LndError::Rpc(detail) => "RPC error: "@ + detail@,
            LndError::Io(detail) => "IO error: "@ + detail@,
        }
    }

    /// Says in words what failed.
    pub fn message(&self) -> (message: String)
        ensures
            message@ == self.text(),
    {
        match self {
            LndError::Connection(detail) => String::from_str("Connection error: ").concat(
                detail.as_str(),
            ),
            LndError::Rpc(detail) => String::from_str("RPC error: ").concat(detail.as_str()),
            LndError::Io(detail) => String::from_str("IO error: ").concat(detail.as_str()),
        }
    }
}

/// The state of an invoice as the node reports it.
#[derive(Debug, Clone, Copy, PartialEq, Eq, Structural)]
pub enum RemoteState {
    Open,
    Settled,
    Canceled,
    Accepted,
}

/// The state that a code of the node's protocol stands for.
pub open spec fn remote_state(code: i32) -> Option<RemoteState> {
    if code == 0 {
        Some(RemoteState::Open)
    } else if code == 1 {
        Some(RemoteState::Settled)
    } else if code == 2 {
        Some(RemoteState::Canceled)
    } else if code == 3 {
        Some(RemoteState::Accepted)
    } else {
        None
    }
}

/// `InvoiceState::from_i32` of `tonic_lnd`: the state with the given code in
/// the node's protocol, which numbers `OPEN` 0, `SETTLED` 1, `CANCELED` 2 and
/// `ACCEPTED` 3; nothing for any other code.
#[verifier::external_body]
pub(crate) fn invoice_state(code: i32) -> (state: Option<RemoteState>)
    ensures
        state == remote_state(code),
{
    match tonic_lnd::lnrpc::invoice::InvoiceState::from_i32(code) {
        Some(tonic_lnd::lnrpc::invoice::InvoiceState::Open) => Some(RemoteState::Open),
        Some(tonic_lnd::lnrpc::invoice::InvoiceState::Settled) => Some(RemoteState::Settled),
        Some(tonic_lnd::lnrpc::invoice::InvoiceState::Canceled) => Some(RemoteState::Canceled),
        Some(tonic_lnd::lnrpc::invoice::InvoiceState::Accepted) => Some(RemoteState::Accepted),
        None => None,
    }
}

/// An invoice as the node reports it.
#[derive(Debug, Clone, PartialEq, Eq)]
pub struct LndInvoice {
    /// The payment hash.
    pub r_hash: Vec<u8>,
    /// The code of the invoice's state.
    pub state: i32,
    /// Seconds after its creation for which the invoice is valid.
    pub expiry: i64,
    /// The second at which the invoice was created.
    pub creation_date: i64,
    /// The payment request as it was written.
    pub payment_request: String,
    /// The amount in the smallest unit.
    pub value: i64,
    /// The description.
    pub memo: String,
}

/// The mathematical content of an `LndInvoice`.
pub struct Invoice {
    pub r_hash: Seq<u8>,
    pub state: i32,
    pub expiry: i64,
    pub creation_date: i64,
    pub payment_request: Seq<char>,
    pub value: i64,
    pub memo: Seq<char>,
}

impl View for LndInvoice {
    type V = Invoice;

    open spec fn view(&self) -> Invoice {
        Invoice {
            r_hash: self.r_hash@,
            state: self.state,
            expiry: self.expiry,
            creation_date: self.creation_date,
            payment_request: self.payment_request@,
            value: self.value,
            memo: self.memo@,
        }
    }
}

/// Seconds for which an invoice issued through this crate is valid.
pub const INVOICE_EXPIRY_SECONDS: i64 = 3600;

/// The largest fee that a payment may cost, in percent of its amount.
pub const FEE_LIMIT_PERCENT: i64 = 5;

/// What the node is asked to issue an invoice for.
#[derive(Debug, Clone, PartialEq, Eq)]
pub struct InvoiceOrder {
    pub value: i64,
    pub memo: String,
    pub expiry: i64,
}

/// What the node is asked to pay.
#[derive(Debug, Clone, PartialEq, Eq)]
pub struct PaymentOrder {
    pub payment_request: String,
    pub fee_limit_percent: i64,
}

/// The order for an invoice over `amount_sats`: with the given memo, or an
/// empty one, and valid for an hour.
pub fn invoice_order(amount_sats: i64, memo: Option<String>) -> (order: InvoiceOrder)
    ensures
        order.value == amount_sats,
        order.expiry == INVOICE_EXPIRY_SECONDS,
        order.memo@ == match text_of(memo) {
            Some(text) => text,
            None => Seq::empty(),
        },
{
    let memo = match memo {
        Some(text) => text,
        None => String::new(),
    };
    InvoiceOrder { value: amount_sats, memo, expiry: INVOICE_EXPIRY_SECONDS }
}

/// The order to pay a request, for a fee of at most five percent.
pub fn payment_order(payment_request: String) -> (order: PaymentOrder)
    ensures
        order.payment_request@ == payment_request@,
        order.fee_limit_percent == FEE_LIMIT_PERCENT,
{
    PaymentOrder { payment_request, fee_limit_percent: FEE_LIMIT_PERCENT }
}

} // verus!
