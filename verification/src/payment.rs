//! The steps by which an invoice of someone else is paid.
//!
//! The request is decoded by the node, looked up in the store so that no
//! invoice is paid twice, recorded as pending, and handed to the node for
//! payment. What the node reports is written to the record: a failure with
//! its reason, a success with the proof of settlement and the fee. Only a
//! payment that the store has marked as succeeded is announced.
//!
//! Talking to the node and to the store is left to the caller. `pay_begin`
//! and `pay_next` say what to ask next and how the payment ends.

use vstd::pervasive::unreached;
use vstd::prelude::*;
use vstd::string::*;

use crate::api::ApiError;
use crate::bus::{announced, EventBus, Subscription};
use crate::dto::{Change, InvoiceEvent, PayInvoiceRequest, PaymentResponse};
use crate::lnd::{LndError, LndFailure};
use crate::models::{
    Candidate, Changes, NewTransaction, Record, Timestamp, Transaction, TxStatus, TxType,
    UpdateTransaction,
};
use crate::store::{
    create_transaction, get_transaction_by_hash, holds, insert_outcome, inserted,
    lemma_inserted_well_formed, position, record_of, update_transaction_status, well_formed,
    DbError, DbFailure, Store,
};
use crate::text::{hex_encode, hex_text};

verus! {

/// A payment request as the node decoded it.
#[derive(Debug, Clone, PartialEq, Eq)]
pub struct PayReq {
    pub payment_hash: String,
    pub num_satoshis: i64,
    pub description: String,
}

/// What the node reports of a payment that it was asked to make.
#[derive(Debug, Clone, PartialEq, Eq)]
pub struct SendResponse {
    /// Why the payment failed; empty where it went through.
    pub payment_error: String,
    /// The proof of settlement.
    pub payment_preimage: Vec<u8>,
    /// The fees of the route in thousandths of the smallest unit, where the
    /// node reports a route.
    pub total_fees_msat: Option<i64>,
}

/// What a payment waits for.
#[derive(Debug, Clone, PartialEq, Eq)]
pub enum PayState {
    /// The node decodes the request.
    Decoding { payment_request: String },
    /// The store looks for a payment of the same invoice.
    Looking { payment_request: String, decoded: PayReq },
    /// The store records the payment as pending.
    Recording { payment_request: String, decoded: PayReq },
    /// The node makes the payment.
    Sending { decoded: PayReq },
    /// The store marks the payment as failed.
    Failing { reason: String },
    /// The store marks the payment as succeeded.
    Settling { decoded: PayReq, preimage: String },
    /// Nothing: the payment has ended.
    Finished,
}

/// What the node or the store answered.
#[derive(Debug, PartialEq, Eq)]
pub enum PayEvent {
    Decoded(Result<PayReq, LndError>),
    Looked(Result<Option<Transaction>, DbError>),
    Recorded(Result<Transaction, DbError>),
    Sent(Result<SendResponse, LndError>),
    Marked(Result<Transaction, DbError>),
}

/// What is to be done next for a payment.
#[derive(Debug, PartialEq, Eq)]
pub enum PayAction {
    /// Have the node decode the payment request.
    Decode { payment_request: String },
    /// Look for the payment with the hash in the store.
    Find { payment_hash: String },
    /// Put the record into the store.
    Create { new_tx: NewTransaction },
    /// Have the node pay the request.
    Send { payment_request: String },
    /// Change the payment with the hash in the store.
    Update { payment_hash: String, update: UpdateTransaction },
    /// Announce the event, if there is one, and answer the caller.
    Finish { event: Option<InvoiceEvent>, result: Result<PaymentResponse, ApiError> },
}

/// The mathematical content of a `PayReq`.
pub struct Decoded {
    pub payment_hash: Seq<char>,
    pub num_satoshis: i64,
    pub description: Seq<char>,
}

impl View for PayReq {
    type V = Decoded;

    open spec fn view(&self) -> Decoded {
        Decoded {
            payment_hash: self.payment_hash@,
            num_satoshis: self.num_satoshis,
            description: self.description@,
        }
    }
}

/// The mathematical content of a `SendResponse`.
pub struct Sent {
    pub payment_error: Seq<char>,
    pub payment_preimage: Seq<u8>,
    pub total_fees_msat: Option<i64>,
}

impl View for SendResponse {
    type V = Sent;

    open spec fn view(&self) -> Sent {
        Sent {
            payment_error: self.payment_error@,
            payment_preimage: self.payment_preimage@,
            total_fees_msat: self.total_fees_msat,
        }
    }
}

/// The mathematical content of a `PayState`.
pub enum Stage {
    Decoding { payment_request: Seq<char> },
    Looking { payment_request: Seq<char>, decoded: Decoded },
    Recording { payment_request: Seq<char>, decoded: Decoded },
    Sending { decoded: Decoded },
    Failing { reason: Seq<char> },
    Settling { decoded: Decoded, preimage: Seq<char> },
    Finished,
}

impl View for PayState {
    type V = Stage;

    open spec fn view(&self) -> Stage {
        match self {
            PayState::Decoding { payment_request } => Stage::Decoding {
                payment_request: payment_request@,
            },
            PayState::Looking { payment_request, decoded } => Stage::Looking {
                payment_request: payment_request@,
                decoded: decoded@,
            },
            PayState::Recording { payment_request, decoded } => Stage::Recording {
                payment_request: payment_request@,
                decoded: decoded@,
            },
            PayState::Sending { decoded } => Stage::Sending { decoded: decoded@ },
            PayState::Failing { reason } => Stage::Failing { reason: reason@ },
            PayState::Settling { decoded, preimage } => Stage::Settling {
                decoded: decoded@,
                preimage: preimage@,
            },
            PayState::Finished => Stage::Finished,
        }
    }
}

/// Why a payment did not go through, in mathematical terms.
pub enum Refusal {
    /// The request is not well-formed.
    BadRequest(Seq<char>),
    /// What was asked for is not there.
    NotFound(Seq<char>),
    /// The invoice was paid, or is being paid, already.
    Duplicate,
    /// The node could not make the payment.
    Failed(Seq<char>),
    /// A call to the node failed.
    Node(LndFailure),
    /// The store failed.
    Store(DbFailure),
}

/// The refusal that an error stands for.
pub open spec fn refusal_of(e: ApiError) -> Refusal {
    match e {
        ApiError::BadRequest(detail) => Refusal::BadRequest(detail@),
        ApiError::NotFound(detail) => Refusal::NotFound(detail@),
        ApiError::DuplicatePayment => Refusal::Duplicate,
        ApiError::PaymentFailed(detail) => Refusal::Failed(detail@),
        ApiError::Lnd(e) => Refusal::Node(e@),
        ApiError::Database(e) => Refusal::Store(e@),
    }
}

/// The mathematical content of a `PaymentResponse`.
pub struct Paid {
    pub payment_hash: Seq<char>,
    pub preimage: Seq<char>,
    pub amount_sats: i64,
}

/// The mathematical content of a `PayEvent`.
pub enum Answer {
    Decoded(Result<Decoded, LndFailure>),
    Looked(Result<Option<Record>, DbFailure>),
    Recorded(Result<Record, DbFailure>),
    Sent(Result<Sent, LndFailure>),
    Marked(Result<Record, DbFailure>),
}

impl View for PayEvent {
    type V = Answer;

    open spec fn view(&self) -> Answer {
        match self {
            PayEvent::Decoded(Ok(decoded)) => Answer::Decoded(Ok(decoded@)),
            PayEvent::Decoded(Err(e)) => Answer::Decoded(Err(e@)),
            PayEvent::Looked(Ok(found)) => Answer::Looked(Ok(record_of(*found))),
            PayEvent::Looked(Err(e)) => Answer::Looked(Err(e@)),
            PayEvent::Recorded(Ok(tx)) => Answer::Recorded(Ok(tx@)),
            PayEvent::Recorded(Err(e)) => Answer::Recorded(Err(e@)),
            PayEvent::Sent(Ok(sent)) => Answer::Sent(Ok(sent@)),
            PayEvent::Sent(Err(e)) => Answer::Sent(Err(e@)),
            PayEvent::Marked(Ok(tx)) => Answer::Marked(Ok(tx@)),
            PayEvent::Marked(Err(e)) => Answer::Marked(Err(e@)),
        }
    }
}

/// The mathematical content of a `PayAction`.
pub enum Task {
    Decode { payment_request: Seq<char> },
    Find { payment_hash: Seq<char> },
    Create { candidate: Candidate },
    Send { payment_request: Seq<char> },
    Update { payment_hash: Seq<char>, changes: Changes },
    Finish { change: Option<Change>, result: Result<Paid, Refusal> },
}

impl View for PayAction {
    type V = Task;

    open spec fn view(&self) -> Task {
        match self {
            PayAction::Decode { payment_request } => Task::Decode {
                payment_request: payment_request@,
            },
            PayAction::Find { payment_hash } => Task::Find { payment_hash: payment_hash@ },
            PayAction::Create { new_tx } => Task::Create { candidate: new_tx@ },
            PayAction::Send { payment_request } => Task::Send { payment_request: payment_request@ },
            PayAction::Update { payment_hash, update } => Task::Update {
                payment_hash: payment_hash@,
                changes: update@,
            },
            PayAction::Finish { event, result } => Task::Finish {
                change: match event {
                    Some(event) => Some(event@),
                    None => None,
                },
                result: match result {
                    Ok(response) => Ok(
                        Paid {
                            payment_hash: response.payment_hash@,
                            preimage: response.preimage@,
                            amount_sats: response.amount_sats,
                        },
                    ),
                    Err(e) => Err(refusal_of(*e)),
                },
            },
        }
    }
}

/// The end of a payment that did not go through.
pub open spec fn refused(refusal: Refusal) -> (Stage, Task) {
    (Stage::Finished, Task::Finish { change: None, result: Err(refusal) })
}

/// The fee in the smallest unit for a fee in thousandths of it: the
/// thousandths are cut off.
pub open spec fn fee_sats(msat: i64) -> i64 {
    if msat >= 0 {
        (msat / 1000) as i64
    } else {
        (-((-msat) / 1000)) as i64
    }
}

/// The record of a payment that is about to be made: pending, under the
/// hash of the decoded request, owned by the paying node.
pub open spec fn pending_payment(
    payment_request: Seq<char>,
    decoded: Decoded,
    node_id: Seq<char>,
) -> Candidate {
    Candidate {
        tx_type: TxType::Payment,
        payment_hash: decoded.payment_hash,
        payment_request,
        amount_sats: decoded.num_satoshis,
        description: Some(decoded.description),
        status: TxStatus::Pending,
        expires_at: None,
        node_id,
    }
}

/// How a payment begins: an empty request is refused, any other is given to
/// the node to decode.
pub open spec fn pay_first(payment_request: Seq<char>) -> (Stage, Task) {
    if payment_request.len() == 0 {
        refused(Refusal::BadRequest("payment_request is required"@))
    } else {
        (Stage::Decoding { payment_request }, Task::Decode { payment_request })
    }
}

/// How a payment goes on after an answer.
///
/// A call that fails ends the payment with its failure, but for the call
/// that marks a failed payment: the payment has failed either way. An answer
/// to something that the payment did not wait for ends it as well. A request that decodes is
/// looked up under its hash. A payment that is there already is refused as a
/// duplicate; otherwise the payment is recorded as pending and then made.
/// What the node reports of it is written to the record. Once the record
/// says that the payment succeeded, that is announced and answered.
pub open spec fn pay_then(
    stage: Stage,
    answer: Answer,
    node_id: Seq<char>,
    now: Timestamp,
) -> (Stage, Task) {
    match (stage, answer) {
        (Stage::Decoding { payment_request }, Answer::Decoded(Ok(decoded))) => (
            Stage::Looking { payment_request, decoded },
            Task::Find { payment_hash: decoded.payment_hash },
        ),
        (Stage::Decoding { .. }, Answer::Decoded(Err(e))) => refused(Refusal::Node(e)),
        (Stage::Looking { payment_request, decoded }, Answer::Looked(Ok(None))) => (
            Stage::Recording { payment_request, decoded },
            Task::Create { candidate: pending_payment(payment_request, decoded, node_id) },
        ),
        (Stage::Looking { .. }, Answer::Looked(Ok(Some(_)))) => refused(Refusal::Duplicate),
        (Stage::Looking { .. }, Answer::Looked(Err(e))) => refused(Refusal::Store(e)),
        (Stage::Recording { payment_request, decoded }, Answer::Recorded(Ok(_))) => (
            Stage::Sending { decoded },
            Task::Send { payment_request },
        ),
        (Stage::Recording { .. }, Answer::Recorded(Err(e))) => refused(Refusal::Store(e)),
        (Stage::Sending { decoded }, Answer::Sent(Ok(sent))) => if sent.payment_error.len()
            > 0 {
            (
                Stage::Failing { reason: sent.payment_error },
                Task::Update {
                    payment_hash: decoded.payment_hash,
                    changes: Changes {
                        status: Some(TxStatus::Failed),
                        preimage: None,
                        fee_sats: None,
                        failure_reason: Some(sent.payment_error),
                        updated_at: now,
                    },
                },
            )
        } else {
            (
                Stage::Settling { decoded, preimage: hex_text(sent.payment_preimage) },
                Task::Update {
                    payment_hash: decoded.payment_hash,
                    changes: Changes {
                        status: Some(TxStatus::Succeeded),
                        preimage: Some(hex_text(sent.payment_preimage)),
                        fee_sats: match sent.total_fees_msat {
                            Some(msat) => Some(fee_sats(msat)),
                            None => None,
                        },
                        failure_reason: None,
                        updated_at: now,
                    },
                },
            )
        },
        (Stage::Sending { .. }, Answer::Sent(Err(e))) => refused(Refusal::Node(e)),
        (Stage::Failing { reason }, Answer::Marked(_)) => refused(Refusal::Failed(reason)),
        (Stage::Settling { decoded, preimage }, Answer::Marked(Ok(record))) => (
            Stage::Finished,
            Task::Finish {
                change: Some(Change::PaymentSucceeded(record)),
                result: Ok(
                    Paid {
                        payment_hash: decoded.payment_hash,
                        preimage,
                        amount_sats: decoded.num_satoshis,
                    },
                ),
            },
        ),
        (Stage::Settling { .. }, Answer::Marked(Err(e))) => refused(Refusal::Store(e)),
        _ => refused(Refusal::Store(DbFailure::NotFound)),
    }
}

fn refuse(e: ApiError) -> (next: (PayState, PayAction))
    ensures
        (next.0@, next.1@) == refused(refusal_of(e)),
        next.1 == (PayAction::Finish { event: None, result: Err(e) }),
{
    (PayState::Finished, PayAction::Finish { event: None, result: Err(e) })
}

/// Begins a payment.
pub fn pay_begin(body: PayInvoiceRequest) -> (next: (PayState, PayAction))
    ensures
        (next.0@, next.1@) == pay_first(body.payment_request@),
{
    if body.payment_request.as_str().is_empty() {
        return refuse(ApiError::BadRequest(String::from_str("payment_request is required")));
    }
    let payment_request = body.payment_request.clone();
    (
        PayState::Decoding { payment_request: body.payment_request },
        PayAction::Decode { payment_request },
    )
}

/// Goes on with a payment after the node or the store answered.
///
/// `send_node_id` is the node that pays, and `now` the time of the answer.
pub fn pay_next(state: PayState, event: PayEvent, send_node_id: &str, now: Timestamp) -> (next: (
    PayState,
    PayAction,
))
    ensures
        (next.0@, next.1@) == pay_then(state@, event@, send_node_id@, now),
{
    match (state, event) {
        (PayState::Decoding { payment_request }, PayEvent::Decoded(Ok(decoded))) => {
            let payment_hash = decoded.payment_hash.clone();
            (PayState::Looking { payment_request, decoded }, PayAction::Find { payment_hash })
        },
        (PayState::Decoding { .. }, PayEvent::Decoded(Err(e))) => refuse(ApiError::Lnd(e)),
        (PayState::Looking { payment_request, decoded }, PayEvent::Looked(Ok(None))) => {
            let new_tx = NewTransaction::new(
                TxType::Payment,
                decoded.payment_hash.clone(),
                payment_request.clone(),
                decoded.num_satoshis,
                Some(decoded.description.clone()),
                TxStatus::Pending,
                None,
                String::from_str(send_node_id),
            );
            (PayState::Recording { payment_request, decoded }, PayAction::Create { new_tx })
        },
        (PayState::Looking { .. }, PayEvent::Looked(Ok(Some(_)))) => refuse(
            ApiError::DuplicatePayment,
        ),
        (PayState::Looking { .. }, PayEvent::Looked(Err(e))) => refuse(ApiError::Database(e)),
        (PayState::Recording { payment_request, decoded }, PayEvent::Recorded(Ok(_))) => (
            PayState::Sending { decoded },
            PayAction::Send { payment_request },
        ),
        (PayState::Recording { .. }, PayEvent::Recorded(Err(e))) => refuse(ApiError::Database(e)),
        (PayState::Sending { decoded }, PayEvent::Sent(Ok(payment))) => {
            let payment_hash = decoded.payment_hash.clone();
            if !payment.payment_error.as_str().is_empty() {
                let update = UpdateTransaction::new(
                    Some(TxStatus::Failed),
                    None,
                    None,
                    Some(payment.payment_error.clone()),
                    now,
                );
                (
                    PayState::Failing { reason: payment.payment_error },
                    PayAction::Update { payment_hash, update },
                )
            } else {
                let preimage = hex_encode(payment.payment_preimage.as_slice());
                let fee = match payment.total_fees_msat {
                    Some(msat) => Some(msat / 1000),
                    None => None,
                };
                let update = UpdateTransaction::new(
                    Some(TxStatus::Succeeded),
                    Some(preimage.clone()),
                    fee,
                    None,
                    now,
                );
                (
                    PayState::Settling { decoded, preimage },
                    PayAction::Update { payment_hash, update },
                )
            }
        },
        (PayState::Sending { .. }, PayEvent::Sent(Err(e))) => refuse(ApiError::Lnd(e)),
        (PayState::Failing { reason }, PayEvent::Marked(_)) => refuse(
            ApiError::PaymentFailed(reason),
        ),
        (PayState::Settling { decoded, preimage }, PayEvent::Marked(Ok(tx))) => (
            PayState::Finished,
            PayAction::Finish {
                event: Some(InvoiceEvent::PaymentSucceeded { tx }),
                result: Ok(
                    PaymentResponse {
                        payment_hash: decoded.payment_hash,
                        preimage,
                        amount_sats: decoded.num_satoshis,
                    },
                ),
            },
        ),
        (PayState::Settling { .. }, PayEvent::Marked(Err(e))) => refuse(ApiError::Database(e)),
        _ => refuse(ApiError::Database(DbError::NotFound)),
    }
}

/// No payment is announced that the store has not marked as succeeded, and
/// none that was refused.
pub proof fn lemma_announces_settled_only(
    stage: Stage,
    answer: Answer,
    node_id: Seq<char>,
    now: Timestamp,
)
    ensures
        pay_then(stage, answer, node_id, now).1 matches Task::Finish { change: Some(change), result }
            ==> {
            &&& stage is Settling
            &&& answer matches Answer::Marked(Ok(record))
            &&& change == Change::PaymentSucceeded(record)
            &&& result is Ok
        },
{
}

/// A payment is handed to the node only once the store holds its record.
pub proof fn lemma_sends_after_recording(
    stage: Stage,
    answer: Answer,
    node_id: Seq<char>,
    now: Timestamp,
)
    ensures
        pay_then(stage, answer, node_id, now).1 is Send ==> stage is Recording && answer
            matches Answer::Recorded(Ok(_)),
{
}

/// What the node answers when it is asked to decode and to pay.
#[derive(Debug, PartialEq, Eq)]
pub struct NodeAnswers {
    pub decoded: Result<PayReq, LndError>,
    pub sent: Result<SendResponse, LndError>,
}

/// The changes that the report of a payment makes to its record: a failure
/// with its reason, or a success with the proof of settlement in hexadecimal
/// and the fee in the smallest unit.
pub open spec fn report_changes(sent: Sent, now: Timestamp) -> Changes {
    if sent.payment_error.len() > 0 {
        Changes {
            status: Some(TxStatus::Failed),
            preimage: None,
            fee_sats: None,
            failure_reason: Some(sent.payment_error),
            updated_at: now,
        }
    } else {
        Changes {
            status: Some(TxStatus::Succeeded),
            preimage: Some(hex_text(sent.payment_preimage)),
            fee_sats: match sent.total_fees_msat {
                Some(msat) => Some(fee_sats(msat)),
                None => None,
            },
            failure_reason: None,
            updated_at: now,
        }
    }
}

/// How a payment ends.
pub struct Ending {
    /// The records after the payment.
    pub records: Seq<Record>,
    /// What the caller is answered.
    pub result: Result<Paid, Refusal>,
    /// What is announced.
    pub change: Option<Change>,
}

/// A payment from its request to its end, at a store that serves no one
/// else meanwhile.
///
/// An empty request, a request that the node does not decode, and a request
/// whose payment the store holds already are refused, and leave the store as
/// it was. Otherwise the payment is recorded as pending. If the node then
/// fails to answer, the record stays pending. If the node reports a failure,
/// the record is marked as failed with the reason. If the node reports
/// success, the record is marked as succeeded, and that is announced.
pub open spec fn payment_ending(
    s: Seq<Record>,
    payment_request: Seq<char>,
    decoded: Result<Decoded, LndFailure>,
    sent: Result<Sent, LndFailure>,
    node_id: Seq<char>,
    now: Timestamp,
) -> Ending {
    if payment_request.len() == 0 {
        Ending {
            records: s,
            result: Err(Refusal::BadRequest("payment_request is required"@)),
            change: None,
        }
    } else {
        match decoded {
            Err(e) => Ending { records: s, result: Err(Refusal::Node(e)), change: None },
            Ok(decoded) => {
                let key = (TxType::Payment, decoded.payment_hash);
                let candidate = pending_payment(payment_request, decoded, node_id);
                if holds(s, key) {
                    Ending { records: s, result: Err(Refusal::Duplicate), change: None }
                } else {
                    match insert_outcome(s, candidate, now) {
                        Err(e) => Ending {
                            records: s,
                            result: Err(Refusal::Store(e)),
                            change: None,
                        },
                        Ok(record) => {
                            let recorded = inserted(s, record);
                            match sent {
                                Err(e) => Ending {
                                    records: recorded,
                                    result: Err(Refusal::Node(e)),
                                    change: None,
                                },
                                Ok(sent) => {
                                    let marked = record.updated(report_changes(sent, now));
                                    let records = recorded.update(
                                        position(recorded, key),
                                        marked,
                                    );
                                    if sent.payment_error.len() > 0 {
                                        Ending {
                                            records,
                                            result: Err(Refusal::Failed(sent.payment_error)),
                                            change: None,
                                        }
                                    } else {
                                        Ending {
                                            records,
                                            result: Ok(
                                                Paid {
                                                    payment_hash: decoded.payment_hash,
                                                    preimage: hex_text(sent.payment_preimage),
                                                    amount_sats: decoded.num_satoshis,
                                                },
                                            ),
                                            change: Some(Change::PaymentSucceeded(marked)),
                                        }
                                    }
                                },
                            }
                        },
                    }
                }
            },
        }
    }
}

/// The view of what the node decoded.
pub open spec fn decoded_of(decoded: Result<PayReq, LndError>) -> Result<Decoded, LndFailure> {
    match decoded {
        Ok(decoded) => Ok(decoded@),
        Err(e) => Err(e@),
    }
}

/// The view of what the node reported.
pub open spec fn sent_of(sent: Result<SendResponse, LndError>) -> Result<Sent, LndFailure> {
    match sent {
        Ok(sent) => Ok(sent@),
        Err(e) => Err(e@),
    }
}

/// The view of the answer to a payment.
pub open spec fn answer_of(result: Result<PaymentResponse, ApiError>) -> Result<Paid, Refusal> {
    match result {
        Ok(response) => Ok(
            Paid {
                payment_hash: response.payment_hash@,
                preimage: response.preimage@,
                amount_sats: response.amount_sats,
            },
        ),
        Err(e) => Err(refusal_of(e)),
    }
}

fn ended(bus: &mut EventBus, listener: Option<&Subscription>, action: PayAction) -> (res: Result<
    PaymentResponse,
    ApiError,
>)
    requires
        old(bus).wf(),
        action is Finish,
    ensures
        final(bus).wf(),
        final(bus).retained() == old(bus).retained(),
        forall|subscription: Subscription| #[trigger]
            subscription.attached_to(old(bus)) ==> subscription.attached_to(final(bus)),
        action@ matches Task::Finish { change, result } && answer_of(res) == result && announced(
            old(bus).events(),
            final(bus).events(),
            change,
            listener matches Some(held) && held.attached_to(old(bus)) && old(bus).events().len()
                < u64::MAX,
        ),
{
    match action {
        PayAction::Finish { event, result } => {
            if let Some(event) = event {
                bus.publish_to(event, listener);
            }
            result
        },
        _ => unreached(),
    }
}

/// Pays an invoice: decodes the request, records the payment, has the node
/// make it, writes down how it went, and announces a success on the bus.
///
/// `node` holds what the node answers when it is asked. `listener` is a
/// subscription of the bus, if the caller holds one: with it the
/// announcement is sure to be taken. The steps are those of `pay_begin` and
/// `pay_next`, taken at the store of this crate.
pub fn pay_invoice(
    store: &mut Store,
    bus: &mut EventBus,
    listener: Option<&Subscription>,
    body: PayInvoiceRequest,
    node: NodeAnswers,
    send_node_id: &str,
    now: Timestamp,
) -> (res: Result<PaymentResponse, ApiError>)
    requires
        old(bus).wf(),
    ensures
        final(bus).wf(),
        final(bus).retained() == old(bus).retained(),
        forall|subscription: Subscription| #[trigger]
            subscription.attached_to(old(bus)) ==> subscription.attached_to(final(bus)),
        well_formed(final(store)@),
        ({
            let ending = payment_ending(
                old(store)@,
                body.payment_request@,
                decoded_of(node.decoded),
                sent_of(node.sent),
                send_node_id@,
                now,
            );
            &&& final(store)@ == ending.records
            &&& answer_of(res) == ending.result
            &&& announced(
                old(bus).events(),
                final(bus).events(),
                ending.change,
                listener matches Some(held) && held.attached_to(old(bus)) && old(bus).events().len()
                    < u64::MAX,
            )
        }),
{
    proof {
        use_type_invariant(&*store);
    }
    let (state, action) = pay_begin(body);
    if matches!(action, PayAction::Finish { .. }) {
        return ended(bus, listener, action);
    }
    let (state, action) = pay_next(state, PayEvent::Decoded(node.decoded), send_node_id, now);
    let payment_hash = match action {
        PayAction::Find { payment_hash } => payment_hash,
        other => {
            return ended(bus, listener, other);
        },
    };
    let found = get_transaction_by_hash(store, TxType::Payment, payment_hash.as_str());
    let (state, action) = pay_next(state, PayEvent::Looked(found), send_node_id, now);
    let new_tx = match action {
        PayAction::Create { new_tx } => new_tx,
        other => {
            return ended(bus, listener, other);
        },
    };
    let ghost candidate = new_tx@;
    let ghost before = store@;
    let recorded = create_transaction(store, new_tx, now);
    proof {
        if recorded is Ok {
            lemma_inserted_well_formed(before, candidate.created((before.len() + 1) as i64, now));
        }
    }
    let (state, action) = pay_next(state, PayEvent::Recorded(recorded), send_node_id, now);
    if matches!(action, PayAction::Finish { .. }) {
        return ended(bus, listener, action);
    }
    let (state, action) = pay_next(state, PayEvent::Sent(node.sent), send_node_id, now);
    let (payment_hash, update) = match action {
        PayAction::Update { payment_hash, update } => (payment_hash, update),
        other => {
            return ended(bus, listener, other);
        },
    };
    let marked = update_transaction_status(store, TxType::Payment, payment_hash.as_str(), update);
    let (_, action) = pay_next(state, PayEvent::Marked(marked), send_node_id, now);
    ended(bus, listener, action)
}

} // verus!
