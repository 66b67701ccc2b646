use thors::models::{Balance, Timestamp, TxStatus, TxType};

#[test]
fn kinds_have_names() {
    assert_eq!(TxType::Invoice.as_str(), "invoice");
    assert_eq!(TxType::Payment.as_str(), "payment");
    assert_eq!(TxType::from_str("invoice"), Some(TxType::Invoice));
    assert_eq!(TxType::from_str("payment"), Some(TxType::Payment));
    assert_eq!(TxType::from_str("Invoice"), None);
    assert_eq!(TxType::from_str(""), None);
}

#[test]
fn statuses_have_names() {
    let all = [TxStatus::Pending, TxStatus::Succeeded, TxStatus::Failed, TxStatus::Expired];
    let names = ["pending", "succeeded", "failed", "expired"];
    for (status, name) in all.iter().zip(names) {
        assert_eq!(status.as_str(), name);
        assert_eq!(TxStatus::from_str(name), Some(*status));
    }
    assert_eq!(TxStatus::from_str("settled"), None);
    assert_eq!(TxStatus::from_str("pending "), None);
}

#[test]
fn only_pending_is_not_terminal() {
    assert!(!TxStatus::Pending.is_terminal());
    assert!(TxStatus::Succeeded.is_terminal());
    assert!(TxStatus::Failed.is_terminal());
    assert!(TxStatus::Expired.is_terminal());
}

#[test]
fn points_in_time_are_ordered() {
    let a = Timestamp { secs: 1, nanos: 999_999_999 };
    let b = Timestamp { secs: 2, nanos: 0 };
    let c = Timestamp { secs: 2, nanos: 1 };
    assert!(a.is_before(&b));
    assert!(b.is_before(&c));
    assert!(!c.is_before(&b));
    assert!(!b.is_before(&b));
    assert_eq!(a.later(b), b);
    assert_eq!(c.later(b), c);
    let early = Timestamp { secs: -5, nanos: 0 };
    assert_eq!(early.later(a), a);
}

#[test]
fn total_balance_is_received_less_paid() {
    let balance = Balance {
        id: 1,
        received_sats: 500,
        paid_sats: 120,
        last_updated: Timestamp { secs: 0, nanos: 0 },
    };
    assert_eq!(balance.total_balance(), 380);
    let owing = Balance { received_sats: 1, paid_sats: 3, ..balance };
    assert_eq!(owing.total_balance(), -2);
}
