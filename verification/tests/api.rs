use thors::api::{
    balance_dto, create_invoice, found_transaction, get_balance, get_invoice, get_payment,
    invoice_created, list_transactions, ApiError, TransactionsQuery,
};
use thors::clock::{FIRST_SECOND, LAST_SECOND};
use thors::dto::CreateInvoiceRequest;
use thors::lnd::{invoice_order, payment_order, LndError};
use thors::models::{NewTransaction, Timestamp, TxStatus, TxType};
use thors::store::{create_transaction, BalanceSummary, DbError, Store};

fn at(secs: i64) -> Timestamp {
    Timestamp { secs, nanos: 0 }
}

fn put(store: &mut Store, kind: TxType, hash: &str, status: TxStatus, amount: i64, node: &str) {
    let new_tx = NewTransaction::new(
        kind,
        hash.to_string(),
        "lnbc".to_string(),
        amount,
        None,
        status,
        None,
        node.to_string(),
    );
    create_transaction(store, new_tx, at(1_700_000_000)).unwrap();
}

#[test]
fn errors_have_a_status_and_words() {
    let cases = [
        (ApiError::BadRequest("bad".to_string()), 400, "bad"),
        (ApiError::NotFound("gone".to_string()), 404, "gone"),
        (ApiError::DuplicatePayment, 400, "Payment already exists for this invoice"),
        (ApiError::PaymentFailed("no route".to_string()), 400, "Payment failed: no route"),
        (ApiError::Lnd(LndError::Connection("c".to_string())), 500, "Connection error: c"),
        (ApiError::Lnd(LndError::Rpc("r".to_string())), 500, "RPC error: r"),
        (ApiError::Lnd(LndError::Io("i".to_string())), 500, "IO error: i"),
        (ApiError::Database(DbError::Diesel("d".to_string())), 500, "Database error: d"),
        (ApiError::Database(DbError::Pool("p".to_string())), 500, "Pool error: p"),
    ];
    for (error, status, words) in cases {
        assert_eq!(error.status_code(), status);
        assert_eq!(error.message(), words);
    }
}

#[test]
fn an_invoice_needs_a_positive_amount() {
    for amount in [0, -1, i64::MIN] {
        let body = CreateInvoiceRequest { amount_sats: amount, description: None };
        assert_eq!(
            create_invoice(&body),
            Err(ApiError::BadRequest("amount_sats must be positive".to_string()))
        );
    }
    let body = CreateInvoiceRequest { amount_sats: 1, description: Some("tea".to_string()) };
    let order = create_invoice(&body).unwrap();
    assert_eq!((order.value, order.memo.as_str(), order.expiry), (1, "tea", 3600));
    let body = CreateInvoiceRequest { amount_sats: i64::MAX, description: None };
    let order = create_invoice(&body).unwrap();
    assert_eq!((order.value, order.memo.as_str(), order.expiry), (i64::MAX, "", 3600));
}

#[test]
fn orders_for_the_node() {
    let order = invoice_order(21, None);
    assert_eq!((order.value, order.memo.as_str(), order.expiry), (21, "", 3600));
    let order = payment_order("lnbc1".to_string());
    assert_eq!((order.payment_request.as_str(), order.fee_limit_percent), ("lnbc1", 5));
}

#[test]
fn an_issued_invoice_goes_out_with_its_hash_in_hex() {
    let response = invoice_created("lnbc1".to_string(), &[0xde, 0xad, 0x01], 5);
    assert_eq!(response.payment_request, "lnbc1");
    assert_eq!(response.payment_hash, "dead01");
    assert_eq!(response.amount_sats, 5);
    assert_eq!(invoice_created(String::new(), &[], 0).payment_hash, "");
    let all: Vec<u8> = (0..=255).collect();
    let expected: String = all.iter().map(|b| format!("{b:02x}")).collect();
    assert_eq!(invoice_created(String::new(), &all, 0).payment_hash, expected);
}

#[test]
fn records_are_found_by_kind() {
    let mut store = Store::new();
    put(&mut store, TxType::Invoice, "aa", TxStatus::Pending, 5, "n");
    put(&mut store, TxType::Payment, "bb", TxStatus::Pending, 6, "n");
    assert_eq!(get_invoice(&store, "aa").unwrap().amount_sats, 5);
    assert_eq!(get_payment(&store, "bb").unwrap().amount_sats, 6);
    assert_eq!(
        get_invoice(&store, "bb"),
        Err(ApiError::NotFound("Invoice not found".to_string()))
    );
    assert_eq!(
        get_payment(&store, "aa"),
        Err(ApiError::NotFound("Payment not found".to_string()))
    );
}

#[test]
fn a_record_of_the_other_kind_is_not_found() {
    let mut store = Store::new();
    put(&mut store, TxType::Invoice, "aa", TxStatus::Pending, 5, "n");
    let invoice = get_invoice(&store, "aa").unwrap();
    assert_eq!(found_transaction(Some(invoice.clone()), TxType::Invoice), Ok(invoice.clone()));
    assert_eq!(
        found_transaction(Some(invoice), TxType::Payment),
        Err(ApiError::NotFound("Payment not found (hash belongs to an invoice)".to_string()))
    );
    put(&mut store, TxType::Payment, "bb", TxStatus::Pending, 5, "n");
    let payment = get_payment(&store, "bb").unwrap();
    assert_eq!(
        found_transaction(Some(payment), TxType::Invoice),
        Err(ApiError::NotFound("Invoice not found (hash belongs to a payment)".to_string()))
    );
    assert_eq!(
        found_transaction(None, TxType::Invoice),
        Err(ApiError::NotFound("Invoice not found".to_string()))
    );
}

#[test]
fn pages_default_to_fifty_from_the_start() {
    let query = TransactionsQuery { limit: None, offset: None };
    assert_eq!((query.limit_or_default(), query.offset_or_default()), (50, 0));
    let query = TransactionsQuery { limit: Some(3), offset: Some(7) };
    assert_eq!((query.limit_or_default(), query.offset_or_default()), (3, 7));

    let mut store = Store::new();
    for i in 0..60 {
        put(&mut store, TxType::Invoice, &format!("{i:02}"), TxStatus::Pending, i, "n");
    }
    let all = TransactionsQuery { limit: None, offset: None };
    assert_eq!(list_transactions(&store, &all).unwrap().len(), 50);
    let tail = TransactionsQuery { limit: None, offset: Some(55) };
    assert_eq!(list_transactions(&store, &tail).unwrap().len(), 5);
    let bad = TransactionsQuery { limit: Some(-1), offset: None };
    assert_eq!(list_transactions(&store, &bad), Err(ApiError::Database(DbError::InvalidPage)));
}

#[test]
fn the_reported_total_is_what_is_pending() {
    let summary = BalanceSummary {
        received_sats: 120,
        paid_sats: 6,
        pending_received_sats: 100,
        pending_paid_sats: 50,
        last_updated: at(0),
    };
    let dto = balance_dto(&summary, "then".to_string());
    assert_eq!(
        (dto.received_sats, dto.paid_sats, dto.total_balance, dto.last_updated.as_str()),
        (120, 6, 50, "then")
    );
}

#[test]
fn the_balance_carries_a_date() {
    let mut store = Store::new();
    put(&mut store, TxType::Invoice, "a", TxStatus::Pending, 100, "recv");
    put(&mut store, TxType::Payment, "b", TxStatus::Pending, 30, "send");
    put(&mut store, TxType::Payment, "c", TxStatus::Succeeded, 4, "send");
    let dto = get_balance(&store, "recv", "send", at(5)).unwrap();
    assert_eq!((dto.received_sats, dto.paid_sats, dto.total_balance), (100, 4, 70));
    assert_eq!(dto.last_updated, "2023-11-14T22:13:20+00:00");

    let empty = Store::new();
    let now = Timestamp { secs: 0, nanos: 500_000_000 };
    let dto = get_balance(&empty, "recv", "send", now).unwrap();
    assert_eq!(dto.total_balance, 0);
    assert_eq!(dto.last_updated, "1970-01-01T00:00:00.500+00:00");
}

#[test]
fn dates_run_from_the_first_second_to_the_last() {
    let empty = Store::new();
    let text = |secs: i64, nanos: u32| {
        get_balance(&empty, "recv", "send", Timestamp { secs, nanos }).map(|dto| dto.last_updated)
    };
    assert_eq!(text(FIRST_SECOND, 0).unwrap(), "-262143-01-01T00:00:00+00:00");
    assert_eq!(text(LAST_SECOND, 0).unwrap(), "+262142-12-31T23:59:59+00:00");
    assert!(text(LAST_SECOND, 999_999_999).is_ok());
    assert!(text(FIRST_SECOND - 1, 0).is_err());
    assert!(text(LAST_SECOND + 1, 0).is_err());
    assert!(text(i64::MIN, 0).is_err());
    assert!(text(0, 1_000_000_000).is_err());
    assert!(text(59, 1_000_000_000).is_ok());
    assert!(text(59, 1_999_999_999).is_ok());
    assert!(text(59, 2_000_000_000).is_err());
    assert!(text(-1, 1_500_000_000).is_ok());
    assert!(text(-2, 1_500_000_000).is_err());
    assert!(text(60, 1_500_000_000).is_err());
}

#[test]
fn a_balance_that_cannot_be_reported_fails() {
    let empty = Store::new();
    let never = Timestamp { secs: i64::MAX, nanos: 0 };
    assert!(matches!(
        get_balance(&empty, "recv", "send", never),
        Err(ApiError::Database(DbError::Diesel(_)))
    ));
    let mut store = Store::new();
    put(&mut store, TxType::Invoice, "a", TxStatus::Pending, i64::MAX, "recv");
    put(&mut store, TxType::Payment, "b", TxStatus::Pending, -1, "send");
    assert!(matches!(
        get_balance(&store, "recv", "send", at(1)),
        Err(ApiError::Database(DbError::Diesel(_)))
    ));
}
