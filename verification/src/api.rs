//! The answers of the service to its callers.

use vstd::prelude::*;
use vstd::string::*;

use crate::clock::{representable, rfc3339, rfc3339_text};
use crate::dto::{BalanceDto, CreateInvoiceRequest, InvoiceResponse};
use crate::lnd::{invoice_order, InvoiceOrder, LndError, INVOICE_EXPIRY_SECONDS};
use crate::models::{Record, Timestamp, Transaction, TxType};
use crate::store::{
    balance_of, get_balance_summary, get_transaction_by_hash, lemma_lookup_has_key, lookup, page,
    record_of, records_of, BalanceSummary, DbError, DbFailure, Store,
};
use crate::text::{copy_text, hex_encode, hex_text, text_of};

verus! {

/// Why a request was not served.
#[derive(Debug, Clone, PartialEq, Eq)]
pub enum ApiError {
    /// The request is not well-formed.
    BadRequest(String),
    /// What was asked for is not there.
    NotFound(String),
    /// The invoice was paid, or is being paid, already.
    DuplicatePayment,
    /// The node could not make the payment.
    PaymentFailed(String),
    /// A call to the node failed.
    Lnd(LndError),
    /// The store failed.
    Database(DbError),
}

impl ApiError {
    /// The HTTP status that reports the error: 400 for a request that cannot
    /// be served as it is, 404 for what is not there, 500 for a failure of
    /// the node or the store.
    pub open spec fn status(&self) -> u16 {
        match self {
            ApiError::BadRequest(_) => 400,
            ApiError::DuplicatePayment => 400,
            ApiError::PaymentFailed(_) => 400,
            ApiError::NotFound(_) => 404,
            ApiError::Lnd(_) => 500,
            ApiError::Database(_) => 500,
        }
    }

    /// The error in words.
    pub open spec fn text(&self) -> Seq<char> {
        match self {
            ApiError::BadRequest(detail) => detail@,
            ApiError::NotFound(detail) => detail@,
            ApiError::DuplicatePayment => "Payment already exists for this invoice"@,
            ApiError::PaymentFailed(detail) => "Payment failed: "@ + detail@,
            ApiError::Lnd(e) => e.text(),
            ApiError::Database(e) => e.text(),
        }
    }

    /// The HTTP status that reports the error.
    pub fn status_code(&self) -> (code: u16)
        ensures
            code == self.status(),
    {
        match self {
            ApiError::BadRequest(_) | ApiError::DuplicatePayment | ApiError::PaymentFailed(_) => 400,
            ApiError::NotFound(_) => 404,
            ApiError::Lnd(_) | ApiError::Database(_) => 500,
        }
    }

    /// Says in words what went wrong.
    pub fn message(&self) -> (message: String)
        ensures
            message@ == self.text(),
    {
        match self {
            ApiError::BadRequest(detail) => detail.clone(),
            ApiError::NotFound(detail) => detail.clone(),
            ApiError::DuplicatePayment => String::from_str("Payment already exists for this invoice"),
            ApiError::PaymentFailed(detail) => String::from_str("Payment failed: ").concat(
                detail.as_str(),
            ),
            ApiError::Lnd(e) => e.message(),
            ApiError::Database(e) => e.message(),
        }
    }
}

/// The page of the records that a caller asks for.
#[derive(Debug, Clone, Copy, PartialEq, Eq, Structural)]
pub struct TransactionsQuery {
    pub limit: Option<i64>,
    pub offset: Option<i64>,
}

/// The number of records on a page where the caller names none.
pub const DEFAULT_PAGE_LIMIT: i64 = 50;

impl TransactionsQuery {
    /// The limit of the page: the one asked for, or fifty.
    pub fn limit_or_default(&self) -> (limit: i64)
        ensures
            limit == match self.limit {
                Some(limit) => limit,
                None => DEFAULT_PAGE_LIMIT,
            },
    {
        match self.limit {
            Some(limit) => limit,
            None => DEFAULT_PAGE_LIMIT,
        }
    }

    /// The offset of the page: the one asked for, or none.
    pub fn offset_or_default(&self) -> (offset: i64)
        ensures
            offset == match self.offset {
                Some(offset) => offset,
                None => 0,
            },
    {
        match self.offset {
            Some(offset) => offset,
            None => 0,
        }
    }
}

/// Checks a request for an invoice and makes the order for the node.
///
/// An amount that is not positive is a bad request.
pub fn create_invoice(body: &CreateInvoiceRequest) -> (res: Result<InvoiceOrder, ApiError>)
    ensures
        match res {
            Ok(order) => {
                &&& body.amount_sats > 0
                &&& order.value == body.amount_sats
                &&& order.expiry == INVOICE_EXPIRY_SECONDS
                &&& order.memo@ == match text_of(body.description) {
                    Some(text) => text,
                    None => Seq::empty(),
                }
            },
            Err(e) => {
                &&& body.amount_sats <= 0
                &&& e matches ApiError::BadRequest(detail)
                &&& detail@ == "amount_sats must be positive"@
            },
        },
{
    if body.amount_sats <= 0 {
        return Err(ApiError::BadRequest(String::from_str("amount_sats must be positive")));
    }
    Ok(invoice_order(body.amount_sats, copy_text(&body.description)))
}

/// The answer to a request for an invoice, once the node has issued it:
/// the hash goes out in hexadecimal.
pub fn invoice_created(payment_request: String, r_hash: &[u8], amount_sats: i64) -> (response:
    InvoiceResponse)
    ensures
        response.payment_request@ == payment_request@,
        response.payment_hash@ == hex_text(r_hash@),
        response.amount_sats == amount_sats,
{
    InvoiceResponse { payment_request, payment_hash: hex_encode(r_hash), amount_sats }
}

/// What is answered to a request for a record of the given kind, once the
/// store was asked: the record, or that it was not found.
pub open spec fn found_or_missing(found: Option<Record>, kind: TxType) -> Result<Record, Seq<char>> {
    match found {
        Some(record) => if record.tx_type == kind {
            Ok(record)
        } else {
            Err(
                match kind {
                    TxType::Invoice => "Invoice not found (hash belongs to a payment)"@,
                    TxType::Payment => "Payment not found (hash belongs to an invoice)"@,
                },
            )
        },
        None => Err(
            match kind {
                TxType::Invoice => "Invoice not found"@,
                TxType::Payment => "Payment not found"@,
            },
        ),
    }
}

/// Answers a request for a record of the given kind with what the store
/// found.
pub fn found_transaction(found: Option<Transaction>, kind: TxType) -> (res: Result<
    Transaction,
    ApiError,
>)
    ensures
        match res {
            Ok(tx) => found_or_missing(record_of(found), kind) == Ok::<Record, Seq<char>>(tx@),
            Err(e) => e matches ApiError::NotFound(detail) && found_or_missing(
                record_of(found),
                kind,
            ) == Err::<Record, Seq<char>>(detail@),
        },
{
    match found {
        Some(tx) => {
            if tx.tx_type == kind {
                Ok(tx)
            } else {
                Err(
                    ApiError::NotFound(
                        match kind {
                            TxType::Invoice => String::from_str(
                                "Invoice not found (hash belongs to a payment)",
                            ),
                            TxType::Payment => String::from_str(
                                "Payment not found (hash belongs to an invoice)",
                            ),
                        },
                    ),
                )
            }
        },
        None => Err(
            ApiError::NotFound(
                match kind {
                    TxType::Invoice => String::from_str("Invoice not found"),
                    TxType::Payment => String::from_str("Payment not found"),
                },
            ),
        ),
    }
}

/// The invoice with the given hash, or that there is none.
pub fn get_invoice(store: &Store, payment_hash: &str) -> (res: Result<Transaction, ApiError>)
    ensures
        match res {
            Ok(tx) => lookup(store@, (TxType::Invoice, payment_hash@)) == Some(tx@),
            Err(e) => e matches ApiError::NotFound(detail) && detail@ == "Invoice not found"@
                && lookup(store@, (TxType::Invoice, payment_hash@)) is None,
        },
{
    match get_transaction_by_hash(store, TxType::Invoice, payment_hash) {
        Ok(found) => {
            proof {
                lemma_lookup_has_key(store@, (TxType::Invoice, payment_hash@));
            }
            found_transaction(found, TxType::Invoice)
        },
        Err(e) => Err(ApiError::Database(e)),
    }
}

/// The payment with the given hash, or that there is none.
pub fn get_payment(store: &Store, payment_hash: &str) -> (res: Result<Transaction, ApiError>)
    ensures
        match res {
            Ok(tx) => lookup(store@, (TxType::Payment, payment_hash@)) == Some(tx@),
            Err(e) => e matches ApiError::NotFound(detail) && detail@ == "Payment not found"@
                && lookup(store@, (TxType::Payment, payment_hash@)) is None,
        },
{
    match get_transaction_by_hash(store, TxType::Payment, payment_hash) {
        Ok(found) => {
            proof {
                lemma_lookup_has_key(store@, (TxType::Payment, payment_hash@));
            }
            found_transaction(found, TxType::Payment)
        },
        Err(e) => Err(ApiError::Database(e)),
    }
}

/// The page of records that a query asks for, newest first: fifty records
/// from the start where the query names no limit and no offset.
pub fn list_transactions(store: &Store, params: &TransactionsQuery) -> (res: Result<
    Vec<Transaction>,
    ApiError,
>)
    ensures
        ({
            let limit = match params.limit {
                Some(limit) => limit,
                None => DEFAULT_PAGE_LIMIT,
            };
            let offset = match params.offset {
                Some(offset) => offset,
                None => 0,
            };
            match res {
                Ok(txs) => limit >= 0 && offset >= 0 && records_of(txs@) == page(
                    store@,
                    limit as int,
                    offset as int,
                ),
                Err(e) => e matches ApiError::Database(cause) && cause@ == DbFailure::InvalidPage
                    && (limit < 0 || offset < 0),
            }
        }),
{
    match crate::store::list_transactions(
        store,
        params.limit_or_default(),
        params.offset_or_default(),
    ) {
        Ok(txs) => Ok(txs),
        Err(e) => Err(ApiError::Database(e)),
    }
}

/// The balance as it is reported: what was received, what was paid, and as
/// the total what is pending to be received less what is pending to be
/// paid.
pub fn balance_dto(summary: &BalanceSummary, last_updated: String) -> (dto: BalanceDto)
    requires
        i64::MIN <= summary.pending_received_sats - summary.pending_paid_sats <= i64::MAX,
    ensures
        dto.received_sats == summary.received_sats,
        dto.paid_sats == summary.paid_sats,
        dto.total_balance == summary.pending_received_sats - summary.pending_paid_sats,
        dto.last_updated@ == last_updated@,
{
    BalanceDto {
        received_sats: summary.received_sats,
        paid_sats: summary.paid_sats,
        total_balance: summary.pending_received_sats - summary.pending_paid_sats,
        last_updated,
    }
}

/// Whether a balance summary can be reported: its total fits 64 bits and
/// the time of its last change can be written as a date.
pub open spec fn balance_reportable(summary: BalanceSummary) -> bool {
    &&& i64::MIN <= summary.pending_received_sats - summary.pending_paid_sats <= i64::MAX
    &&& representable(summary.last_updated)
}

/// The balance of the two nodes as it is reported, with the time of the last
/// change as a date of RFC 3339.
///
/// Fails with the store's failure where a sum is out of range, and in the
/// same way where the total is, or where the time of the last change cannot
/// be written as a date.
pub fn get_balance(store: &Store, receive_node_id: &str, send_node_id: &str, now: Timestamp) -> (res:
    Result<BalanceDto, ApiError>)
    ensures
        match res {
            Ok(dto) => {
                &&& balance_of(store@, receive_node_id@, send_node_id@, now) matches Some(summary)
                &&& balance_reportable(summary)
                &&& dto.received_sats == summary.received_sats
                &&& dto.paid_sats == summary.paid_sats
                &&& dto.total_balance == summary.pending_received_sats
                    - summary.pending_paid_sats
                &&& dto.last_updated@ == rfc3339_text(
                    summary.last_updated.secs,
                    summary.last_updated.nanos,
                )
            },
            Err(e) => {
                &&& e matches ApiError::Database(cause)
                &&& cause is Diesel
                &&& balance_of(store@, receive_node_id@, send_node_id@, now) matches Some(summary)
                    ==> !balance_reportable(summary)
            },
        },
{
    let summary = match get_balance_summary(store, receive_node_id, send_node_id, now) {
        Ok(summary) => summary,
        Err(e) => {
            return Err(ApiError::Database(e));
        },
    };
    if summary.pending_received_sats.checked_sub(summary.pending_paid_sats).is_none() {
        return Err(ApiError::Database(DbError::Diesel(String::from_str("bigint out of range"))));
    }
    match rfc3339(summary.last_updated) {
        Some(last_updated) => Ok(balance_dto(&summary, last_updated)),
        None => Err(
            ApiError::Database(DbError::Diesel(String::from_str("timestamp out of range"))),
        ),
    }
}

} // verus!
