use thors::bus::{Delivery, EventBus};
use thors::dto::InvoiceEvent;
use thors::lnd::{LndError, LndInvoice};
use thors::models::{Timestamp, TxStatus, TxType};
use thors::reconciler::{
    event_for, handle_invoice_event, invoice_candidate, invoice_expiry_second,
    lnd_state_to_tx_status, subscribe_to_invoices, subscription_start, sync_invoices_from_lnd,
    SubscriptionAction, SubscriptionEvent, SubscriptionState, SyncReport, SyncSummary,
    RECONNECT_DELAY_SECONDS,
};
use thors::store::{get_transaction_by_hash, DbError, Store};
use thors::upsert::upsert_transaction;

fn at(secs: i64) -> Timestamp {
    Timestamp { secs, nanos: 0 }
}

fn reported(hash: &[u8], state: i32) -> LndInvoice {
    LndInvoice {
        r_hash: hash.to_vec(),
        state,
        expiry: 3600,
        creation_date: 1_700_000_000,
        payment_request: "lnbc1...".to_string(),
        value: 2500,
        memo: "coffee".to_string(),
    }
}

#[test]
fn remote_states_map_to_statuses() {
    assert_eq!(lnd_state_to_tx_status(0), TxStatus::Pending);
    assert_eq!(lnd_state_to_tx_status(1), TxStatus::Succeeded);
    assert_eq!(lnd_state_to_tx_status(2), TxStatus::Expired);
    assert_eq!(lnd_state_to_tx_status(3), TxStatus::Pending);
    assert_eq!(lnd_state_to_tx_status(4), TxStatus::Pending);
    assert_eq!(lnd_state_to_tx_status(-1), TxStatus::Pending);
    assert_eq!(lnd_state_to_tx_status(i32::MAX), TxStatus::Pending);
}

#[test]
fn expiry_needs_both_numbers() {
    assert_eq!(invoice_expiry_second(1_700_000_000, 3600), Some(1_700_003_600));
    assert_eq!(invoice_expiry_second(0, 3600), None);
    assert_eq!(invoice_expiry_second(1_700_000_000, 0), None);
    assert_eq!(invoice_expiry_second(-5, 3600), None);
    assert_eq!(invoice_expiry_second(5, -3600), None);
    assert_eq!(invoice_expiry_second(i64::MAX, 1), None);
    assert_eq!(invoice_expiry_second(i64::MAX - 1, 1), Some(i64::MAX));
}

#[test]
fn candidate_of_a_reported_invoice() {
    let invoice = reported(&[0x00, 0x0f, 0xa5, 0xff], 1);
    let new_tx = invoice_candidate(&invoice, "node-a");
    assert_eq!(new_tx.tx_type, TxType::Invoice);
    assert_eq!(new_tx.payment_hash, "000fa5ff");
    assert_eq!(new_tx.payment_request, "lnbc1...");
    assert_eq!(new_tx.amount_sats, 2500);
    assert_eq!(new_tx.description, Some("coffee".to_string()));
    assert_eq!(new_tx.status, TxStatus::Succeeded);
    assert_eq!(new_tx.expires_at, Some(at(1_700_003_600)));
    assert_eq!(new_tx.node_id, "node-a");
}

#[test]
fn candidate_without_memo_or_expiry() {
    let mut invoice = reported(&[], 0);
    invoice.memo = String::new();
    invoice.expiry = 0;
    let new_tx = invoice_candidate(&invoice, "n");
    assert_eq!(new_tx.payment_hash, "");
    assert_eq!(new_tx.description, None);
    assert_eq!(new_tx.expires_at, None);
    assert_eq!(new_tx.status, TxStatus::Pending);
}

#[test]
fn the_last_second_is_the_last_expiry() {
    let mut invoice = reported(&[1], 0);
    invoice.creation_date = thors::clock::LAST_SECOND - 5;
    invoice.expiry = 5;
    assert_eq!(invoice_candidate(&invoice, "n").expires_at, Some(at(thors::clock::LAST_SECOND)));
    invoice.expiry = 6;
    assert_eq!(invoice_candidate(&invoice, "n").expires_at, None);
}

#[test]
fn candidate_with_an_expiry_beyond_all_dates() {
    let mut invoice = reported(&[1], 0);
    invoice.creation_date = i64::MAX - 10;
    invoice.expiry = 5;
    assert_eq!(invoice_candidate(&invoice, "n").expires_at, None);
    invoice.creation_date = i64::MAX - 10;
    invoice.expiry = 50;
    assert_eq!(invoice_candidate(&invoice, "n").expires_at, None);
}

#[test]
fn events_follow_the_status() {
    let tx = {
        let mut store = Store::new();
        upsert_transaction(&mut store, invoice_candidate(&reported(&[1], 0), "n"), at(1))
            .unwrap()
            .unwrap()
    };
    assert_eq!(
        event_for(TxStatus::Pending, tx.clone()),
        Some(InvoiceEvent::InvoiceCreated { tx: tx.clone() })
    );
    assert_eq!(
        event_for(TxStatus::Succeeded, tx.clone()),
        Some(InvoiceEvent::InvoiceSettled { tx: tx.clone() })
    );
    assert_eq!(
        event_for(TxStatus::Expired, tx.clone()),
        Some(InvoiceEvent::InvoiceExpired { tx: tx.clone() })
    );
    assert_eq!(event_for(TxStatus::Failed, tx), None);
}

#[test]
fn sync_counts_changed_and_unchanged() {
    let mut store = Store::new();
    let listing = vec![reported(&[1], 0), reported(&[2], 1), reported(&[3], 2)];
    let report = sync_invoices_from_lnd(Ok(listing.clone()), &mut store, "node-a", at(5));
    assert_eq!(
        report,
        SyncReport::Synced(SyncSummary { total: 3, changed: 3, unchanged: 0, failed: 0 })
    );
    assert_eq!(store.len(), 3);

    let mut later = listing;
    later[0].state = 1;
    later.push(reported(&[4], 3));
    let report = sync_invoices_from_lnd(Ok(later), &mut store, "node-a", at(6));
    assert_eq!(
        report,
        SyncReport::Synced(SyncSummary { total: 4, changed: 2, unchanged: 2, failed: 0 })
    );
    assert_eq!(store.len(), 4);
    let first = get_transaction_by_hash(&store, TxType::Invoice, "01").unwrap().unwrap();
    assert_eq!(first.status(), TxStatus::Succeeded);
    assert_eq!(first.updated_at, at(6));
    let third = get_transaction_by_hash(&store, TxType::Invoice, "03").unwrap().unwrap();
    assert_eq!(third.status(), TxStatus::Expired);
    assert_eq!(third.updated_at, at(5));
}

#[test]
fn sync_without_a_listing_does_nothing() {
    let mut store = Store::new();
    let down = LndError::Connection("refused".to_string());
    let report = sync_invoices_from_lnd(Err(down.clone()), &mut store, "node-a", at(5));
    assert_eq!(report, SyncReport::ListFailed(down));
    assert_eq!(store.len(), 0);
    let report = sync_invoices_from_lnd(Ok(vec![]), &mut store, "node-a", at(5));
    assert_eq!(
        report,
        SyncReport::Synced(SyncSummary { total: 0, changed: 0, unchanged: 0, failed: 0 })
    );
}

#[test]
fn two_earlier_subscribers_both_hear_of_a_new_invoice() {
    let mut store = Store::new();
    let mut bus = EventBus::new(16).unwrap();
    let mut first = bus.subscribe();
    let mut second = bus.subscribe();
    let invoice = reported(&[0xca, 0xfe], 0);
    let res = handle_invoice_event(&invoice, &mut store, &mut bus, Some(&first), "n", at(1));
    let tx = get_transaction_by_hash(&store, TxType::Invoice, "cafe").unwrap().unwrap();
    let event = InvoiceEvent::InvoiceCreated { tx };
    assert_eq!(res, Ok(Some(event.clone())));
    assert_eq!(bus.next_event(&mut first), Delivery::Event(event.clone()));
    assert_eq!(bus.next_event(&mut second), Delivery::Event(event));
    assert_eq!(bus.next_event(&mut first), Delivery::Empty);
    assert_eq!(bus.next_event(&mut second), Delivery::Empty);
}

#[test]
fn a_settled_invoice_is_not_reopened() {
    let mut store = Store::new();
    let mut bus = EventBus::new(16).unwrap();
    let mut listener = bus.subscribe();
    let settled = reported(&[7], 1);
    handle_invoice_event(&settled, &mut store, &mut bus, Some(&listener), "n", at(1)).unwrap();
    assert!(matches!(bus.next_event(&mut listener), Delivery::Event(_)));
    for state in [0, 2, 3, 9] {
        let late = reported(&[7], state);
        let res = handle_invoice_event(&late, &mut store, &mut bus, Some(&listener), "n", at(2));
        assert_eq!(res, Ok(None));
        assert_eq!(bus.next_event(&mut listener), Delivery::Empty);
    }
    let held = get_transaction_by_hash(&store, TxType::Invoice, "07").unwrap().unwrap();
    assert_eq!((held.status(), held.updated_at), (TxStatus::Succeeded, at(1)));
}

#[test]
fn summary_counts_failures_apart() {
    let mut summary = SyncSummary::start(3);
    summary.record(&Ok(None));
    summary.record(&Err(DbError::Pool("gone".to_string())));
    assert_eq!(summary, SyncSummary { total: 3, changed: 0, unchanged: 1, failed: 1 });
}

#[test]
fn an_event_is_announced_once() {
    let mut store = Store::new();
    let mut bus = EventBus::new(16).unwrap();
    let mut listener = bus.subscribe();
    let invoice = reported(&[0xab], 0);

    let first = handle_invoice_event(&invoice, &mut store, &mut bus, None, "node-a", at(1)).unwrap();
    let tx = get_transaction_by_hash(&store, TxType::Invoice, "ab").unwrap().unwrap();
    assert_eq!(first, Some(InvoiceEvent::InvoiceCreated { tx: tx.clone() }));
    let second = handle_invoice_event(&invoice, &mut store, &mut bus, None, "node-a", at(2)).unwrap();
    assert_eq!(second, None);

    assert_eq!(
        bus.next_event(&mut listener),
        Delivery::Event(InvoiceEvent::InvoiceCreated { tx })
    );
    assert_eq!(bus.next_event(&mut listener), Delivery::Empty);

    let mut settled = invoice;
    settled.state = 1;
    let third = handle_invoice_event(&settled, &mut store, &mut bus, None, "node-a", at(3)).unwrap();
    assert!(matches!(third, Some(InvoiceEvent::InvoiceSettled { .. })));
    assert!(matches!(
        bus.next_event(&mut listener),
        Delivery::Event(InvoiceEvent::InvoiceSettled { tx }) if tx.updated_at == at(3)
    ));
}

#[test]
fn events_without_subscribers_are_dropped() {
    let mut store = Store::new();
    let mut bus = EventBus::new(16).unwrap();
    let res = handle_invoice_event(&reported(&[1], 0), &mut store, &mut bus, None, "n", at(1));
    assert!(matches!(res, Ok(Some(InvoiceEvent::InvoiceCreated { .. }))));
    let mut late = bus.subscribe();
    assert_eq!(bus.next_event(&mut late), Delivery::Empty);
}

#[test]
fn the_loop_reconnects_after_five_seconds() {
    assert_eq!(RECONNECT_DELAY_SECONDS, 5);
    assert_eq!(
        subscription_start(),
        (SubscriptionState::Connecting, SubscriptionAction::Subscribe)
    );
    let failed = SubscriptionEvent::SubscribeFailed(LndError::Rpc("unavailable".to_string()));
    assert_eq!(
        subscribe_to_invoices(SubscriptionState::Connecting, failed),
        (SubscriptionState::Waiting, SubscriptionAction::Wait(5))
    );
    assert_eq!(
        subscribe_to_invoices(SubscriptionState::Waiting, SubscriptionEvent::Waited),
        (SubscriptionState::Connecting, SubscriptionAction::Subscribe)
    );
    assert_eq!(
        subscribe_to_invoices(SubscriptionState::Connecting, SubscriptionEvent::Subscribed),
        (SubscriptionState::Streaming, SubscriptionAction::Receive)
    );
    let broke = SubscriptionEvent::StreamFailed(LndError::Io("reset".to_string()));
    assert_eq!(
        subscribe_to_invoices(SubscriptionState::Streaming, broke),
        (SubscriptionState::Waiting, SubscriptionAction::Wait(5))
    );
}

#[test]
fn the_loop_hands_out_invoices_and_stays() {
    let invoice = reported(&[9], 1);
    assert_eq!(
        subscribe_to_invoices(
            SubscriptionState::Streaming,
            SubscriptionEvent::Invoice(invoice.clone())
        ),
        (SubscriptionState::Streaming, SubscriptionAction::Handle(invoice.clone()))
    );
    assert_eq!(
        subscribe_to_invoices(SubscriptionState::Streaming, SubscriptionEvent::Handled),
        (SubscriptionState::Streaming, SubscriptionAction::Receive)
    );
    assert_eq!(
        subscribe_to_invoices(SubscriptionState::Waiting, SubscriptionEvent::Invoice(invoice)),
        (SubscriptionState::Waiting, SubscriptionAction::Wait(5))
    );
    assert_eq!(
        subscribe_to_invoices(SubscriptionState::Connecting, SubscriptionEvent::StreamEnded),
        (SubscriptionState::Connecting, SubscriptionAction::Subscribe)
    );
    assert_eq!(
        subscribe_to_invoices(SubscriptionState::Streaming, SubscriptionEvent::Waited),
        (SubscriptionState::Streaming, SubscriptionAction::Receive)
    );
}

#[test]
fn a_stream_that_always_ends_never_stops_the_loop() {
    let (mut state, mut action) = subscription_start();
    let mut attempts = 0;
    for _ in 0..10_000 {
        assert_eq!(action, SubscriptionAction::Subscribe);
        attempts += 1;
        (state, action) = subscribe_to_invoices(state, SubscriptionEvent::Subscribed);
        assert_eq!(action, SubscriptionAction::Receive);
        (state, action) = subscribe_to_invoices(state, SubscriptionEvent::StreamEnded);
        assert_eq!(action, SubscriptionAction::Wait(5));
        (state, action) = subscribe_to_invoices(state, SubscriptionEvent::Waited);
    }
    assert_eq!(attempts, 10_000);
    assert_eq!((state, action), (SubscriptionState::Connecting, SubscriptionAction::Subscribe));
}
