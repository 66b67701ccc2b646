use thors::bus::{count_send, Delivery, EventBus, EVENT_BUFFER};
use thors::dto::InvoiceEvent;
use thors::models::{NewTransaction, Timestamp, Transaction, TxStatus, TxType};

fn record(id: i64) -> Transaction {
    let new_tx = NewTransaction::new(
        TxType::Invoice,
        format!("{id:02x}"),
        "lnbc".to_string(),
        id,
        None,
        TxStatus::Pending,
        None,
        "node".to_string(),
    );
    Transaction::create(new_tx, id, Timestamp { secs: id, nanos: 0 })
}

fn created(id: i64) -> InvoiceEvent {
    InvoiceEvent::InvoiceCreated { tx: record(id) }
}

#[test]
fn capacity_must_be_in_range() {
    assert!(EventBus::new(0).is_none());
    assert!(EventBus::new(usize::MAX / 2 + 1).is_none());
    assert!(EventBus::new(1).is_some());
    assert!(EventBus::new(EVENT_BUFFER).is_some());
}

#[test]
fn both_subscribers_receive_the_event() {
    let mut bus = EventBus::new(8).unwrap();
    let mut first = bus.subscribe();
    let mut second = bus.subscribe();
    assert!(bus.publish(created(1)));
    assert_eq!(bus.next_event(&mut first), Delivery::Event(created(1)));
    assert_eq!(bus.next_event(&mut second), Delivery::Event(created(1)));
    assert_eq!(bus.next_event(&mut first), Delivery::Empty);
    assert_eq!(bus.next_event(&mut second), Delivery::Empty);
}

#[test]
fn a_late_subscriber_gets_no_history() {
    let mut bus = EventBus::new(8).unwrap();
    let mut early = bus.subscribe();
    assert!(bus.publish(created(1)));
    let mut late = bus.subscribe();
    assert_eq!(bus.next_event(&mut late), Delivery::Empty);
    assert!(bus.publish(created(2)));
    assert_eq!(bus.next_event(&mut late), Delivery::Event(created(2)));
    assert_eq!(bus.next_event(&mut late), Delivery::Empty);
    assert_eq!(bus.next_event(&mut early), Delivery::Event(created(1)));
    assert_eq!(bus.next_event(&mut early), Delivery::Event(created(2)));
}

#[test]
fn publishing_without_subscribers_is_no_error() {
    let mut bus = EventBus::new(8).unwrap();
    assert!(!bus.publish(created(1)));
    let subscription = bus.subscribe();
    drop(subscription);
    assert!(!bus.publish(created(2)));
    let mut listener = bus.subscribe();
    assert!(bus.publish(created(3)));
    assert_eq!(bus.next_event(&mut listener), Delivery::Event(created(3)));
}

#[test]
fn events_arrive_in_order() {
    let mut bus = EventBus::new(8).unwrap();
    let mut listener = bus.subscribe();
    for id in 1..=5 {
        assert!(bus.publish(created(id)));
    }
    for id in 1..=5 {
        assert_eq!(bus.next_event(&mut listener), Delivery::Event(created(id)));
    }
    assert_eq!(bus.next_event(&mut listener), Delivery::Empty);
}

#[test]
fn a_slow_subscriber_sees_a_gap() {
    let mut bus = EventBus::new(4).unwrap();
    let mut slow = bus.subscribe();
    let mut quick = bus.subscribe();
    for id in 1..=7 {
        assert!(bus.publish(created(id)));
        assert_eq!(bus.next_event(&mut quick), Delivery::Event(created(id)));
    }
    assert_eq!(bus.next_event(&mut slow), Delivery::Lagged(3));
    for id in 4..=7 {
        assert_eq!(bus.next_event(&mut slow), Delivery::Event(created(id)));
    }
    assert_eq!(bus.next_event(&mut slow), Delivery::Empty);
}

#[test]
fn the_ring_holds_a_power_of_two() {
    let mut bus = EventBus::new(3).unwrap();
    let mut slow = bus.subscribe();
    for id in 1..=4 {
        assert!(bus.publish(created(id)));
    }
    assert_eq!(bus.next_event(&mut slow), Delivery::Event(created(1)));
    for id in 5..=9 {
        assert!(bus.publish(created(id)));
    }
    assert_eq!(bus.next_event(&mut slow), Delivery::Lagged(4));
    assert_eq!(bus.next_event(&mut slow), Delivery::Event(created(6)));
}

#[test]
fn a_subscription_gives_up_its_receiver() {
    let mut bus = EventBus::new(2).unwrap();
    let mut receiver = bus.subscribe().into_receiver();
    assert!(bus.publish(created(1)));
    assert_eq!(receiver.try_recv().ok(), Some(created(1)));
}

#[test]
fn events_carry_their_record() {
    let tx = record(3);
    let event = InvoiceEvent::PaymentSucceeded { tx: tx.clone() };
    assert_eq!(event.transaction(), &tx);
    assert_eq!(event.duplicate(), event);
}

#[test]
fn gaps_can_be_passed_over() {
    let mut bus = EventBus::new(2).unwrap();
    let mut slow = bus.subscribe();
    assert_eq!(bus.next_kept(&mut slow), None);
    for id in 1..=5 {
        assert!(bus.publish(created(id)));
    }
    assert_eq!(bus.next_kept(&mut slow), Some(created(4)));
    assert_eq!(bus.next_kept(&mut slow), Some(created(5)));
    assert_eq!(bus.next_kept(&mut slow), None);
}

#[test]
fn the_answer_of_the_channel_is_counted() {
    assert_eq!(count_send(0, Some(1)), (1, true));
    assert_eq!(count_send(41, Some(7)), (42, true));
    assert_eq!(count_send(41, None), (41, false));
    assert_eq!(count_send(u64::MAX - 1, Some(1)), (u64::MAX, true));
}

#[test]
fn a_subscription_in_hand_makes_the_bus_take_the_event() {
    let mut bus = EventBus::new(4).unwrap();
    assert!(!bus.publish_to(created(1), None));
    let mut listener = bus.subscribe();
    assert!(bus.publish_to(created(2), Some(&listener)));
    assert!(bus.publish_to(created(3), None));
    assert_eq!(bus.next_event(&mut listener), Delivery::Event(created(2)));
    assert_eq!(bus.next_event(&mut listener), Delivery::Event(created(3)));
    let other = EventBus::new(4).unwrap();
    let stranger = other.subscribe();
    drop(listener);
    assert!(!bus.publish_to(created(4), Some(&stranger)));
}

#[test]
fn a_late_subscriber_takes_what_came_after_it() {
    let mut bus = EventBus::new(8).unwrap();
    let early = bus.subscribe();
    assert!(bus.publish_to(created(1), Some(&early)));
    let mut late = bus.subscribe();
    for id in 2..=5 {
        assert!(bus.publish_to(created(id), Some(&late)));
    }
    assert_eq!(bus.take_events(&mut late, 0), vec![]);
    assert_eq!(bus.take_events(&mut late, 3), vec![created(2), created(3), created(4)]);
    assert_eq!(bus.take_events(&mut late, 3), vec![created(5)]);
    assert_eq!(bus.take_events(&mut late, 3), vec![]);
}

#[test]
fn taking_passes_over_a_gap() {
    let mut bus = EventBus::new(4).unwrap();
    let mut slow = bus.subscribe();
    for id in 1..=9 {
        assert!(bus.publish(created(id)));
    }
    assert_eq!(
        bus.take_events(&mut slow, 100),
        vec![created(6), created(7), created(8), created(9)]
    );
}
