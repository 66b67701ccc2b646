use thors::api::ApiError;
use thors::dto::{InvoiceEvent, PayInvoiceRequest, PaymentResponse};
use thors::lnd::LndError;
use thors::models::{NewTransaction, Timestamp, TxStatus, TxType, UpdateTransaction};
use thors::bus::{Delivery, EventBus};
use thors::payment::{
    pay_begin, pay_invoice, pay_next, NodeAnswers, PayAction, PayEvent, PayReq, PayState,
    SendResponse,
};
use thors::store::get_transaction_by_hash;
use thors::store::{create_transaction, update_transaction_status, DbError, Store};

fn at(secs: i64) -> Timestamp {
    Timestamp { secs, nanos: 0 }
}

fn decoded() -> PayReq {
    PayReq { payment_hash: "abcd".to_string(), num_satoshis: 42, description: "tea".to_string() }
}

fn refused(e: ApiError) -> (PayState, PayAction) {
    (PayState::Finished, PayAction::Finish { event: None, result: Err(e) })
}

fn pending() -> NewTransaction {
    NewTransaction::new(
        TxType::Payment,
        "abcd".to_string(),
        "lnbc42".to_string(),
        42,
        Some("tea".to_string()),
        TxStatus::Pending,
        None,
        "payer".to_string(),
    )
}

#[test]
fn an_empty_request_is_refused() {
    let body = PayInvoiceRequest { payment_request: String::new() };
    assert_eq!(
        pay_begin(body),
        refused(ApiError::BadRequest("payment_request is required".to_string()))
    );
}

#[test]
fn a_payment_that_goes_through() {
    let mut store = Store::new();
    let body = PayInvoiceRequest { payment_request: "lnbc42".to_string() };
    let (state, action) = pay_begin(body);
    assert_eq!(action, PayAction::Decode { payment_request: "lnbc42".to_string() });

    let (state, action) = pay_next(state, PayEvent::Decoded(Ok(decoded())), "payer", at(1));
    assert_eq!(action, PayAction::Find { payment_hash: "abcd".to_string() });

    let (state, action) = pay_next(state, PayEvent::Looked(Ok(None)), "payer", at(2));
    assert_eq!(action, PayAction::Create { new_tx: pending() });
    let PayAction::Create { new_tx } = action else { unreachable!() };
    let recorded = create_transaction(&mut store, new_tx, at(2));

    let (state, action) = pay_next(state, PayEvent::Recorded(recorded), "payer", at(3));
    assert_eq!(action, PayAction::Send { payment_request: "lnbc42".to_string() });

    let sent = SendResponse {
        payment_error: String::new(),
        payment_preimage: vec![0x01, 0xfe],
        total_fees_msat: Some(2999),
    };
    let (state, action) = pay_next(state, PayEvent::Sent(Ok(sent)), "payer", at(4));
    let expected = UpdateTransaction::new(
        Some(TxStatus::Succeeded),
        Some("01fe".to_string()),
        Some(2),
        None,
        at(4),
    );
    assert_eq!(
        action,
        PayAction::Update { payment_hash: "abcd".to_string(), update: expected }
    );
    let PayAction::Update { payment_hash, update } = action else { unreachable!() };
    let marked = update_transaction_status(&mut store, TxType::Payment, &payment_hash, update);
    let tx = marked.clone().unwrap();
    assert_eq!(tx.status(), TxStatus::Succeeded);

    let (state, action) = pay_next(state, PayEvent::Marked(marked), "payer", at(5));
    assert_eq!(state, PayState::Finished);
    assert_eq!(
        action,
        PayAction::Finish {
            event: Some(InvoiceEvent::PaymentSucceeded { tx }),
            result: Ok(PaymentResponse {
                payment_hash: "abcd".to_string(),
                preimage: "01fe".to_string(),
                amount_sats: 42,
            }),
        }
    );
}

#[test]
fn a_payment_that_the_node_cannot_make() {
    let state = PayState::Sending { decoded: decoded() };
    let sent = SendResponse {
        payment_error: "no route".to_string(),
        payment_preimage: vec![],
        total_fees_msat: None,
    };
    let (state, action) = pay_next(state, PayEvent::Sent(Ok(sent)), "payer", at(4));
    let expected = UpdateTransaction::new(
        Some(TxStatus::Failed),
        None,
        None,
        Some("no route".to_string()),
        at(4),
    );
    assert_eq!(
        action,
        PayAction::Update { payment_hash: "abcd".to_string(), update: expected }
    );
    let lost = PayEvent::Marked(Err(DbError::Pool("gone".to_string())));
    assert_eq!(
        pay_next(state, lost, "payer", at(5)),
        refused(ApiError::PaymentFailed("no route".to_string()))
    );
}

#[test]
fn an_invoice_is_not_paid_twice() {
    let mut store = Store::new();
    let earlier = create_transaction(&mut store, pending(), at(1)).unwrap();
    let state =
        PayState::Looking { payment_request: "lnbc42".to_string(), decoded: decoded() };
    assert_eq!(
        pay_next(state, PayEvent::Looked(Ok(Some(earlier))), "payer", at(2)),
        refused(ApiError::DuplicatePayment)
    );
}

#[test]
fn failures_end_the_payment() {
    let node = LndError::Rpc("deadline".to_string());
    let store = DbError::Pool("gone".to_string());
    let request = "lnbc42".to_string();
    assert_eq!(
        pay_next(
            PayState::Decoding { payment_request: request.clone() },
            PayEvent::Decoded(Err(node.clone())),
            "payer",
            at(1)
        ),
        refused(ApiError::Lnd(node.clone()))
    );
    assert_eq!(
        pay_next(
            PayState::Looking { payment_request: request.clone(), decoded: decoded() },
            PayEvent::Looked(Err(store.clone())),
            "payer",
            at(1)
        ),
        refused(ApiError::Database(store.clone()))
    );
    assert_eq!(
        pay_next(
            PayState::Recording { payment_request: request, decoded: decoded() },
            PayEvent::Recorded(Err(DbError::AlreadyExists)),
            "payer",
            at(1)
        ),
        refused(ApiError::Database(DbError::AlreadyExists))
    );
    assert_eq!(
        pay_next(
            PayState::Sending { decoded: decoded() },
            PayEvent::Sent(Err(node.clone())),
            "payer",
            at(1)
        ),
        refused(ApiError::Lnd(node))
    );
    assert_eq!(
        pay_next(
            PayState::Settling { decoded: decoded(), preimage: "00".to_string() },
            PayEvent::Marked(Err(store.clone())),
            "payer",
            at(1)
        ),
        refused(ApiError::Database(store))
    );
}

#[test]
fn fees_are_cut_to_whole_units() {
    for (msat, sats) in [(0, 0), (999, 0), (1000, 1), (1999, 1), (-1, 0), (-1999, -1)] {
        let sent = SendResponse {
            payment_error: String::new(),
            payment_preimage: vec![],
            total_fees_msat: Some(msat),
        };
        let state = PayState::Sending { decoded: decoded() };
        let (_, action) = pay_next(state, PayEvent::Sent(Ok(sent)), "payer", at(1));
        let PayAction::Update { update, .. } = action else { unreachable!() };
        assert_eq!(update.fee_sats, Some(sats));
    }
}

fn request() -> PayInvoiceRequest {
    PayInvoiceRequest { payment_request: "lnbc42".to_string() }
}

fn went_through() -> Result<SendResponse, LndError> {
    Ok(SendResponse {
        payment_error: String::new(),
        payment_preimage: vec![0xbe, 0xef],
        total_fees_msat: Some(1500),
    })
}

#[test]
fn paying_records_and_announces_a_success() {
    let mut store = Store::new();
    let mut bus = EventBus::new(4).unwrap();
    let mut listener = bus.subscribe();
    let node = NodeAnswers { decoded: Ok(decoded()), sent: went_through() };
    let response = pay_invoice(&mut store, &mut bus, None, request(), node, "payer", at(7));
    assert_eq!(
        response,
        Ok(PaymentResponse {
            payment_hash: "abcd".to_string(),
            preimage: "beef".to_string(),
            amount_sats: 42,
        })
    );
    let tx = get_transaction_by_hash(&store, TxType::Payment, "abcd").unwrap().unwrap();
    assert_eq!(tx.status(), TxStatus::Succeeded);
    assert_eq!(tx.preimage, Some("beef".to_string()));
    assert_eq!(tx.fee_sats, Some(1));
    assert_eq!(tx.failure_reason, None);
    assert_eq!(tx.payment_request, "lnbc42");
    assert_eq!(tx.description, Some("tea".to_string()));
    assert_eq!(tx.node_id, "payer");
    assert_eq!(
        bus.next_event(&mut listener),
        Delivery::Event(InvoiceEvent::PaymentSucceeded { tx })
    );
    assert_eq!(bus.next_event(&mut listener), Delivery::Empty);
}

#[test]
fn paying_twice_is_refused_and_changes_nothing() {
    let mut store = Store::new();
    let mut bus = EventBus::new(4).unwrap();
    let node = NodeAnswers { decoded: Ok(decoded()), sent: went_through() };
    pay_invoice(&mut store, &mut bus, None, request(), node, "payer", at(7)).unwrap();
    let mut listener = bus.subscribe();
    let node = NodeAnswers { decoded: Ok(decoded()), sent: went_through() };
    let again = pay_invoice(&mut store, &mut bus, None, request(), node, "payer", at(8));
    assert_eq!(again, Err(ApiError::DuplicatePayment));
    assert_eq!(store.len(), 1);
    let tx = get_transaction_by_hash(&store, TxType::Payment, "abcd").unwrap().unwrap();
    assert_eq!(tx.updated_at, at(7));
    assert_eq!(bus.next_event(&mut listener), Delivery::Empty);
}

#[test]
fn a_failed_payment_is_written_down_and_not_announced() {
    let mut store = Store::new();
    let mut bus = EventBus::new(4).unwrap();
    let mut listener = bus.subscribe();
    let sent = Ok(SendResponse {
        payment_error: "no route".to_string(),
        payment_preimage: vec![],
        total_fees_msat: None,
    });
    let node = NodeAnswers { decoded: Ok(decoded()), sent };
    let response = pay_invoice(&mut store, &mut bus, None, request(), node, "payer", at(7));
    assert_eq!(response, Err(ApiError::PaymentFailed("no route".to_string())));
    let tx = get_transaction_by_hash(&store, TxType::Payment, "abcd").unwrap().unwrap();
    assert_eq!(tx.status(), TxStatus::Failed);
    assert_eq!(tx.failure_reason, Some("no route".to_string()));
    assert_eq!(tx.preimage, None);
    assert_eq!(bus.next_event(&mut listener), Delivery::Empty);
}

#[test]
fn a_payment_that_the_node_drops_stays_pending() {
    let mut store = Store::new();
    let mut bus = EventBus::new(4).unwrap();
    let down = LndError::Rpc("deadline".to_string());
    let node = NodeAnswers { decoded: Ok(decoded()), sent: Err(down.clone()) };
    let response = pay_invoice(&mut store, &mut bus, None, request(), node, "payer", at(7));
    assert_eq!(response, Err(ApiError::Lnd(down.clone())));
    let tx = get_transaction_by_hash(&store, TxType::Payment, "abcd").unwrap().unwrap();
    assert_eq!(tx.status(), TxStatus::Pending);

    let mut store = Store::new();
    let node = NodeAnswers { decoded: Err(down.clone()), sent: went_through() };
    let response = pay_invoice(&mut store, &mut bus, None, request(), node, "payer", at(7));
    assert_eq!(response, Err(ApiError::Lnd(down)));
    assert_eq!(store.len(), 0);

    let node = NodeAnswers { decoded: Ok(decoded()), sent: went_through() };
    let empty = PayInvoiceRequest { payment_request: String::new() };
    let response = pay_invoice(&mut store, &mut bus, None, empty, node, "payer", at(7));
    assert_eq!(
        response,
        Err(ApiError::BadRequest("payment_request is required".to_string()))
    );
    assert_eq!(store.len(), 0);
}

#[test]
fn a_listener_in_hand_hears_the_payment() {
    let mut store = Store::new();
    let mut bus = EventBus::new(4).unwrap();
    let mut listener = bus.subscribe();
    let node = NodeAnswers { decoded: Ok(decoded()), sent: went_through() };
    pay_invoice(&mut store, &mut bus, Some(&listener), request(), node, "payer", at(7)).unwrap();
    assert!(matches!(
        bus.next_event(&mut listener),
        Delivery::Event(InvoiceEvent::PaymentSucceeded { tx }) if tx.payment_hash == "abcd"
    ));
}

#[test]
fn an_answer_to_nothing_ends_the_payment() {
    assert_eq!(
        pay_next(PayState::Finished, PayEvent::Looked(Ok(None)), "payer", at(1)),
        refused(ApiError::Database(DbError::NotFound))
    );
    let decoding = PayState::Decoding { payment_request: "lnbc".to_string() };
    assert_eq!(
        pay_next(decoding, PayEvent::Sent(Err(LndError::Rpc("x".to_string()))), "payer", at(1)),
        refused(ApiError::Database(DbError::NotFound))
    );
}
