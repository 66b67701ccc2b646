//! The event bus: a bounded channel that hands every published event to
//! every subscriber.
//!
//! The channel is `tokio::sync::broadcast`. It keeps the latest events in a
//! ring. A subscriber reads on from the position at which it subscribed; one
//! that falls further behind than the ring holds skips what was overwritten
//! and is told how much. Publishing never waits for a subscriber.
//!
//! A bus owns its channel. Every event enters through `publish`, which takes
//! the bus by `&mut`: between two calls on a bus nothing else sends on its
//! channel, and this is what the contracts below rest on.

use tokio::sync::broadcast::{Receiver, Sender};
use vstd::prelude::*;

use crate::dto::{Change, InvoiceEvent};

verus! {

/// The events that a bus keeps by default.
pub const EVENT_BUFFER: usize = 100;

/// `tokio::sync::broadcast::Sender`, the sending half of a channel. Nothing
/// of what it holds is read here.
#[verifier::external_type_specification]
#[verifier::external_body]
#[verifier::reject_recursive_types(T)]
pub struct ExSender<T>(Sender<T>);

/// `tokio::sync::broadcast::Receiver`, one receiving half of a channel.
/// Nothing of what it holds is read here.
#[verifier::external_type_specification]
#[verifier::external_body]
#[verifier::reject_recursive_types(T)]
pub struct ExReceiver<T>(Receiver<T>);

/// The events that a channel has taken since it was made, oldest first.
pub uninterp spec fn published(sender: Sender<InvoiceEvent>) -> Seq<Change>;

/// The number of events that a channel keeps: the size of its ring.
pub uninterp spec fn ring_size(sender: Sender<InvoiceEvent>) -> nat;

/// The position, among the events that its channel has taken, of the event
/// that a receiver reads next.
pub uninterp spec fn cursor(receiver: Receiver<InvoiceEvent>) -> nat;

/// The receiver reads from the channel of the sender.
pub uninterp spec fn listens_to(receiver: Receiver<InvoiceEvent>, sender: Sender<InvoiceEvent>) -> bool;

/// What a subscriber is handed when it asks for its next event.
#[derive(Debug, Clone, PartialEq, Eq)]
pub enum Delivery {
    /// The next event.
    Event(InvoiceEvent),
    /// The subscriber fell behind: so many events were overwritten before it
    /// read them. It reads on from the oldest event that is kept.
    Lagged(u64),
    /// The subscriber has read every event.
    Empty,
    /// The channel is closed.
    Closed,
}

/// The mathematical content of a `Delivery`.
pub enum Handed {
    Event(Change),
    Lagged(nat),
    Empty,
    Closed,
}

impl View for Delivery {
    type V = Handed;

    open spec fn view(&self) -> Handed {
        match self {
            Delivery::Event(event) => Handed::Event(event@),
            Delivery::Lagged(missed) => Handed::Lagged(*missed as nat),
            Delivery::Empty => Handed::Empty,
            Delivery::Closed => Handed::Closed,
        }
    }
}

/// What a subscriber at `position` is handed by a channel that has taken
/// `events` and keeps the last `retained` of them.
///
/// A subscriber that has read everything is handed nothing. One whose next
/// event was overwritten is told how many events it missed. Any other is
/// handed the event at its position.
pub open spec fn handed_at(events: Seq<Change>, retained: nat, position: nat) -> Handed {
    if position >= events.len() {
        Handed::Empty
    } else if events.len() - position > retained {
        Handed::Lagged((events.len() - retained - position) as nat)
    } else {
        Handed::Event(events[position as int])
    }
}

/// The position of a subscriber after it asked for its next event: one
/// further after an event, at the oldest kept event after a gap, and where
/// it was after nothing.
pub open spec fn position_after(events: Seq<Change>, retained: nat, position: nat) -> nat {
    if position >= events.len() {
        position
    } else if events.len() - position > retained {
        (events.len() - retained) as nat
    } else {
        position + 1
    }
}

/// `tokio::sync::broadcast::channel`: a new channel, of which the sender is
/// kept. The channel has taken no event. It keeps as many events as the
/// capacity rounded up to a power of two. The call panics for a capacity of
/// zero or above `usize::MAX / 2`.
#[verifier::external_body]
fn channel(capacity: usize) -> (sender: Sender<InvoiceEvent>)
    requires
        0 < capacity <= usize::MAX / 2,
    ensures
        published(sender) == Seq::<Change>::empty(),
        capacity <= ring_size(sender) < 2 * capacity,
{
    tokio::sync::broadcast::channel(capacity).0
}

/// `Sender::send`: hands an event to the channel. With a receiver alive the
/// channel takes the event as its newest and the call tells how many
/// receivers there are; without one the event is dropped and the call tells
/// nothing. The ring and the receivers stay with the channel. A receiver of
/// the channel that the caller holds through the call is alive, so that with
/// such a witness the event is taken.
#[verifier::external_body]
fn send(
    sender: &mut Sender<InvoiceEvent>,
    witness: Option<&Receiver<InvoiceEvent>>,
    event: InvoiceEvent,
) -> (receivers: Option<usize>)
    requires
        published(*old(sender)).len() < u64::MAX,
    ensures
        published(*final(sender)) == if receivers is Some {
            published(*old(sender)).push(event@)
        } else {
            published(*old(sender))
        },
        witness matches Some(held) && listens_to(*held, *old(sender)) ==> receivers is Some,
        ring_size(*final(sender)) == ring_size(*old(sender)),
        forall|receiver: Receiver<InvoiceEvent>|
            listens_to(receiver, *old(sender)) ==> #[trigger] listens_to(receiver, *final(sender)),
{
    sender.send(event).ok()
}

/// `Sender::subscribe`: a new receiver on the channel, which reads the
/// events that the channel takes from now on.
#[verifier::external_body]
fn subscribe(sender: &Sender<InvoiceEvent>) -> (receiver: Receiver<InvoiceEvent>)
    ensures
        listens_to(receiver, *sender),
        cursor(receiver) == published(*sender).len(),
{
    sender.subscribe()
}

/// `Receiver::try_recv` on a receiver of the sender's channel: a clone of
/// the event at the receiver's position, which then moves on by one; or the
/// number of events that were overwritten before the receiver read them,
/// which then stands at the oldest event kept; or nothing. While the sender
/// lives the channel is not closed to its receivers.
#[verifier::external_body]
fn try_recv(sender: &Sender<InvoiceEvent>, receiver: &mut Receiver<InvoiceEvent>) -> (delivery:
    Delivery)
    ensures
        listens_to(*old(receiver), *sender) ==> {
            &&& listens_to(*final(receiver), *sender)
            &&& delivery@ == handed_at(
                published(*sender),
                ring_size(*sender),
                cursor(*old(receiver)),
            )
            &&& cursor(*final(receiver)) == position_after(
                published(*sender),
                ring_size(*sender),
                cursor(*old(receiver)),
            )
        },
{
    match receiver.try_recv() {
        Ok(event) => Delivery::Event(event),
        Err(tokio::sync::broadcast::error::TryRecvError::Lagged(missed)) => Delivery::Lagged(
            missed,
        ),
        Err(tokio::sync::broadcast::error::TryRecvError::Empty) => Delivery::Empty,
        Err(tokio::sync::broadcast::error::TryRecvError::Closed) => Delivery::Closed,
    }
}

/// The bus on which changes to records are announced.
pub struct EventBus {
    sender: Sender<InvoiceEvent>,
    taken: u64,
}

/// One subscriber's place on a bus.
pub struct Subscription {
    receiver: Receiver<InvoiceEvent>,
}

impl Subscription {
    /// The position of the event that the subscriber reads next.
    pub closed spec fn position(&self) -> nat {
        cursor(self.receiver)
    }

    /// The subscription was made on this bus.
    pub closed spec fn attached_to(&self, bus: &EventBus) -> bool {
        listens_to(self.receiver, bus.sender)
    }

    /// Gives up the subscription for the receiver of the channel, to be read
    /// by code that waits for events.
    pub fn into_receiver(self) -> (receiver: Receiver<InvoiceEvent>)
        ensures
            cursor(receiver) == self.position(),
    {
        self.receiver
    }
}

impl EventBus {
    /// The events that the bus has taken since it was made, oldest first.
    pub closed spec fn events(&self) -> Seq<Change> {
        published(self.sender)
    }

    /// The number of events that the bus keeps for subscribers that have not
    /// read them.
    pub closed spec fn retained(&self) -> nat {
        ring_size(self.sender)
    }

    /// The bus counts the events that it has taken, and keeps one at least.
    pub closed spec fn wf(&self) -> bool {
        self.taken == published(self.sender).len() && ring_size(self.sender) > 0
    }

    /// A bus that counts its events keeps one at least.
    pub proof fn lemma_keeps_one(&self)
        requires
            self.wf(),
        ensures
            self.retained() >= 1,
    {
    }

    /// A bus that keeps at least `capacity` events, or nothing where the
    /// capacity is zero or above `usize::MAX / 2`.
    pub fn new(capacity: usize) -> (bus: Option<EventBus>)
        ensures
            bus is Some <==> 0 < capacity <= usize::MAX / 2,
            bus matches Some(bus) ==> {
                &&& bus.wf()
                &&& bus.events() == Seq::<Change>::empty()
                &&& capacity <= bus.retained() < 2 * capacity
                &&& bus.retained() >= 1
            },
    {
        if capacity == 0 || capacity > usize::MAX / 2 {
            None
        } else {
            Some(EventBus { sender: channel(capacity), taken: 0 })
        }
    }

    /// Announces an event to the subscribers.
    ///
    /// The bus takes the event where it has a subscriber, and says so.
    /// Without a subscriber the event is dropped, which is no error. The
    /// call never waits. A bus that has taken `u64::MAX` events takes no
    /// more.
    pub fn publish(&mut self, event: InvoiceEvent) -> (taken: bool)
        requires
            old(self).wf(),
        ensures
            final(self).wf(),
            final(self).retained() == old(self).retained(),
            final(self).retained() >= 1,
            final(self).events() == if taken {
                old(self).events().push(event@)
            } else {
                old(self).events()
            },
            old(self).events().len() >= u64::MAX ==> !taken,
            forall|subscription: Subscription| #[trigger]
                subscription.attached_to(old(self)) ==> subscription.attached_to(final(self)),
    {
        self.publish_to(event, None)
    }

    /// Announces an event to the subscribers, of which the caller may hold
    /// one.
    ///
    /// A subscription of this bus that the caller holds is a subscriber that
    /// is there: with it the event is taken, unless the bus has taken
    /// `u64::MAX` events. Without it the bus takes the event where it has a
    /// subscriber, and says so.
    pub fn publish_to(&mut self, event: InvoiceEvent, listener: Option<&Subscription>) -> (taken:
        bool)
        requires
            old(self).wf(),
        ensures
            final(self).wf(),
            final(self).retained() == old(self).retained(),
            final(self).retained() >= 1,
            final(self).events() == if taken {
                old(self).events().push(event@)
            } else {
                old(self).events()
            },
            old(self).events().len() >= u64::MAX ==> !taken,
            listener matches Some(held) && held.attached_to(old(self)) && old(self).events().len()
                < u64::MAX ==> taken,
            forall|subscription: Subscription| #[trigger]
                subscription.attached_to(old(self)) ==> subscription.attached_to(final(self)),
    {
        if self.taken == u64::MAX {
            return false;
        }
        let witness = match listener {
            Some(held) => Some(&held.receiver),
            None => None,
        };
        let (count, taken) = count_send(self.taken, send(&mut self.sender, witness, event));
        self.taken = count;
        taken
    }

    /// A new subscriber. It is handed the events published from now on, and
    /// none of those published before.
    pub fn subscribe(&self) -> (subscription: Subscription)
        ensures
            subscription.attached_to(self),
            subscription.position() == self.events().len(),
    {
        Subscription { receiver: subscribe(&self.sender) }
    }

    /// Hands a subscriber of this bus its next event, if there is one, and
    /// moves the subscriber on.
    pub fn next_event(&self, subscription: &mut Subscription) -> (delivery: Delivery)
        ensures
            old(subscription).attached_to(self) ==> {
                &&& final(subscription).attached_to(self)
                &&& delivery@ == handed_at(
                    self.events(),
                    self.retained(),
                    old(subscription).position(),
                )
                &&& final(subscription).position() == position_after(
                    self.events(),
                    self.retained(),
                    old(subscription).position(),
                )
            },
    {
        try_recv(&self.sender, &mut subscription.receiver)
    }
}

/// What the bus has taken after an announcement was handed to it. With a
/// subscription of the bus in the caller's hand, and room on the bus, the
/// announcement is taken; without, it is taken or dropped.
pub open spec fn announced(
    before: Seq<Change>,
    after: Seq<Change>,
    change: Option<Change>,
    heard: bool,
) -> bool {
    match change {
        Some(change) => after == before.push(change) || (!heard && after == before),
        None => after == before,
    }
}

/// What the answer of the channel to a send means for a bus that has counted
/// `count` events. Where the channel names the number of its receivers, it
/// has taken the event, and the bus has one more to count. Where it names
/// none, it had no receiver and has dropped the event.
pub open spec fn counted(count: u64, receivers: Option<usize>) -> (u64, bool) {
    match receivers {
        Some(_) => ((count + 1) as u64, true),
        None => (count, false),
    }
}

/// Reads the answer of the channel to a send: the count of the bus after it,
/// and whether the event was taken.
pub fn count_send(count: u64, receivers: Option<usize>) -> (next: (u64, bool))
    requires
        count < u64::MAX,
    ensures
        next == counted(count, receivers),
{
    match receivers {
        Some(_) => (count + 1, true),
        None => (count, false),
    }
}

/// The position of the oldest event that a subscriber at `position` can
/// still be handed: its own, or that of the oldest event kept.
pub open spec fn oldest_kept(events: Seq<Change>, retained: nat, position: nat) -> nat {
    if events.len() - position > retained {
        (events.len() - retained) as nat
    } else {
        position
    }
}

impl EventBus {
    /// Hands a subscriber of this bus the next event that the bus still
    /// keeps, passing over a gap without a word, and moves the subscriber
    /// past that event. `None` where the subscriber has read every event.
    pub fn next_kept(&self, subscription: &mut Subscription) -> (event: Option<InvoiceEvent>)
        ensures
            old(subscription).attached_to(self) && self.wf() ==> {
                let position = old(subscription).position();
                let oldest = oldest_kept(self.events(), self.retained(), position);
                &&& final(subscription).attached_to(self)
                &&& match event {
                    Some(event) => position < self.events().len() && event@
                        == self.events()[oldest as int] && final(subscription).position()
                        == oldest + 1,
                    None => position >= self.events().len() && final(subscription).position()
                        == position,
                }
            },
    {
        match self.next_event(subscription) {
            Delivery::Event(event) => Some(event),
            Delivery::Lagged(_) => match self.next_event(subscription) {
                Delivery::Event(event) => Some(event),
                _ => None,
            },
            _ => None,
        }
    }
}

/// The positions from which and up to which a subscriber at `position` is
/// handed events when it asks for at most `limit` of them: from the oldest
/// event that it can still be handed, up to the newest or to the limit.
pub open spec fn taken_range(events: Seq<Change>, retained: nat, position: nat, limit: nat) -> (
    nat,
    nat,
) {
    if position >= events.len() {
        (position, position)
    } else {
        let from = oldest_kept(events, retained, position);
        if from + limit < events.len() {
            (from, from + limit)
        } else {
            (from, events.len())
        }
    }
}

impl EventBus {
    /// Hands a subscriber of this bus the events that the bus still keeps
    /// for it, at most `limit` of them, in the order in which they were
    /// published, passing over a gap without a word. The subscriber moves
    /// past the events that it was handed.
    pub fn take_events(&self, subscription: &mut Subscription, limit: usize) -> (taken: Vec<
        InvoiceEvent,
    >)
        ensures
            taken.len() <= limit,
            old(subscription).attached_to(self) && self.wf() ==> {
                let range = taken_range(
                    self.events(),
                    self.retained(),
                    old(subscription).position(),
                    limit as nat,
                );
                &&& final(subscription).attached_to(self)
                &&& taken.len() == range.1 - range.0
                &&& forall|i: int|
                    0 <= i < taken.len() ==> (#[trigger] taken[i])@ == self.events()[range.0 + i]
                &&& final(subscription).position() == if taken.len() == 0 {
                    old(subscription).position()
                } else {
                    range.1
                }
            },
    {
        let ghost known = subscription.attached_to(self) && self.wf();
        let ghost start = subscription.position();
        let ghost from = oldest_kept(self.events(), self.retained(), start);
        let mut taken: Vec<InvoiceEvent> = Vec::new();
        while taken.len() < limit
            invariant
                taken.len() <= limit,
                known == (old(subscription).attached_to(self) && self.wf()),
                start == old(subscription).position(),
                from == oldest_kept(self.events(), self.retained(), start),
                known ==> {
                    &&& subscription.attached_to(self)
                    &&& forall|i: int|
                        0 <= i < taken.len() ==> (#[trigger] taken[i])@ == self.events()[from + i]
                    &&& if taken.len() == 0 {
                        subscription.position() == start
                    } else {
                        &&& start < self.events().len()
                        &&& subscription.position() == from + taken.len()
                        &&& from + taken.len() <= self.events().len()
                    }
                },
            decreases limit - taken.len(),
        {
            match self.next_kept(subscription) {
                Some(event) => {
                    taken.push(event);
                },
                None => {
                    return taken;
                },
            }
        }
        taken
    }
}

/// Two subscribers that stand at the end of what was published are both
/// handed the event that is published next.
pub proof fn lemma_fanout(events: Seq<Change>, retained: nat, event: Change)
    requires
        retained >= 1,
    ensures
        handed_at(events.push(event), retained, events.len()) == Handed::Event(event),
        position_after(events.push(event), retained, events.len()) == events.len() + 1,
{
}

/// A subscriber is never handed an event from before its position, and its
/// position never moves back: one that subscribes after an event was
/// published is not handed that event, whatever is published later.
pub proof fn lemma_no_history(events: Seq<Change>, retained: nat, position: nat)
    ensures
        position_after(events, retained, position) >= position,
        handed_at(events, retained, position) matches Handed::Event(event) ==> {
            &&& position < events.len()
            &&& event == events[position as int]
            &&& position_after(events, retained, position) == position + 1
        },
{
}

/// What happens at a bus, as one subscriber sees it.
pub enum BusStep {
    /// The bus takes an event.
    Publish(Change),
    /// The subscriber asks for its next event.
    Read,
}

/// A bus and one of its subscribers after some steps.
pub struct BusRun {
    /// The events that the bus has taken.
    pub events: Seq<Change>,
    /// The position of the subscriber.
    pub position: nat,
    /// The positions of the events that the subscriber was handed, in the
    /// order in which it was handed them.
    pub handed: Seq<nat>,
}

/// A bus that has taken `events`, and a subscriber at `position`, after
/// `steps`.
pub open spec fn bus_run(
    events: Seq<Change>,
    retained: nat,
    position: nat,
    steps: Seq<BusStep>,
) -> BusRun
    decreases steps.len(),
{
    if steps.len() == 0 {
        BusRun { events, position, handed: Seq::empty() }
    } else {
        let before = bus_run(events, retained, position, steps.drop_last());
        match steps.last() {
            BusStep::Publish(event) => BusRun { events: before.events.push(event), ..before },
            BusStep::Read => BusRun {
                events: before.events,
                position: position_after(before.events, retained, before.position),
                handed: if handed_at(before.events, retained, before.position) is Event {
                    before.handed.push(before.position)
                } else {
                    before.handed
                },
            },
        }
    }
}

/// Whatever is published and whenever the subscriber reads, it is handed
/// events from its position on only, each one once and in the order in which
/// they were published. A subscriber that joins after an event was
/// published stands behind that event, and so is never handed it.
pub proof fn lemma_never_history(
    events: Seq<Change>,
    retained: nat,
    position: nat,
    steps: Seq<BusStep>,
)
    requires
        position <= events.len(),
    ensures
        ({
            let run = bus_run(events, retained, position, steps);
            &&& position <= run.position <= run.events.len()
            &&& forall|k: int|
                0 <= k < run.handed.len() ==> position <= #[trigger] run.handed[k] < run.position
            &&& forall|k: int, l: int|
                0 <= k < l < run.handed.len() ==> (#[trigger] run.handed[k]) < (
                #[trigger] run.handed[l])
        }),
    decreases steps.len(),
{
    if steps.len() > 0 {
        lemma_never_history(events, retained, position, steps.drop_last());
    }
}

} // verus!
