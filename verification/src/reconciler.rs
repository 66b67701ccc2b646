//! Reconciliation of the store with what the node reports.
//!
//! At startup every invoice that the node lists is upserted. After that the
//! node's stream of invoice changes is followed for as long as the process
//! lives: every change is upserted, and what that changed is published.

use vstd::prelude::*;
use vstd::string::*;

use crate::bus::{announced, EventBus, Subscription};
use crate::dto::{Change, InvoiceEvent};
use crate::upsert::{after_upsert, lemma_upsert_idempotent, upsert_outcome, upsert_transaction};
use crate::clock::{representable_second, timestamp_at};
use crate::lnd::{
    invoice_state, remote_state, Invoice, LndError, LndFailure, LndInvoice, RemoteState,
};
use crate::models::{Candidate, NewTransaction, Record, Timestamp, Transaction, TxStatus, TxType};
use crate::store::{well_formed, DbError, DbFailure, Store};
use crate::text::{hex_encode, hex_text};

verus! {

/// The status that stands for a state of the node. A settled invoice has
/// succeeded and a canceled one has expired; an open or accepted invoice is
/// pending, and so is one in a state that this crate does not know.
pub open spec fn status_of(state: Option<RemoteState>) -> TxStatus {
    match state {
        Some(RemoteState::Settled) => TxStatus::Succeeded,
        Some(RemoteState::Canceled) => TxStatus::Expired,
        Some(RemoteState::Open) => TxStatus::Pending,
        Some(RemoteState::Accepted) => TxStatus::Pending,
        None => TxStatus::Pending,
    }
}

/// The status for the code of a state in the node's protocol.
pub fn lnd_state_to_tx_status(state: i32) -> (status: TxStatus)
    ensures
        status == status_of(remote_state(state)),
{
    match invoice_state(state) {
        Some(RemoteState::Open) => TxStatus::Pending,
        Some(RemoteState::Settled) => TxStatus::Succeeded,
        Some(RemoteState::Canceled) => TxStatus::Expired,
        Some(RemoteState::Accepted) => TxStatus::Pending,
        None => TxStatus::Pending,
    }
}

/// The second at which an invoice expires: its creation plus its time to
/// live, where the node gave both and their sum is a second that can be
/// written.
pub open spec fn expiry_second(creation_date: i64, expiry: i64) -> Option<i64> {
    if expiry > 0 && creation_date > 0 && creation_date + expiry <= i64::MAX {
        Some((creation_date + expiry) as i64)
    } else {
        None
    }
}

/// The point in time at which an invoice expires, where it has one that the
/// date and time library represents.
pub open spec fn expires_at(creation_date: i64, expiry: i64) -> Option<Timestamp> {
    match expiry_second(creation_date, expiry) {
        Some(secs) => if representable_second(secs) {
            Some(Timestamp { secs, nanos: 0 })
        } else {
            None
        },
        None => None,
    }
}

/// Computes the second at which an invoice expires.
pub fn invoice_expiry_second(creation_date: i64, expiry: i64) -> (secs: Option<i64>)
    ensures
        secs == expiry_second(creation_date, expiry),
{
    if expiry > 0 && creation_date > 0 {
        creation_date.checked_add(expiry)
    } else {
        None
    }
}

/// The candidate record for an invoice that the node reported: an invoice
/// record under the hash in hexadecimal, owned by `node_id`, with an empty
/// memo left out.
pub open spec fn candidate_of(invoice: Invoice, node_id: Seq<char>) -> Candidate {
    Candidate {
        tx_type: TxType::Invoice,
        payment_hash: hex_text(invoice.r_hash),
        payment_request: invoice.payment_request,
        amount_sats: invoice.value,
        description: if invoice.memo.len() == 0 {
            None
        } else {
            Some(invoice.memo)
        },
        status: status_of(remote_state(invoice.state)),
        expires_at: expires_at(invoice.creation_date, invoice.expiry),
        node_id,
    }
}

/// Makes the candidate record for an invoice that the node reported.
pub fn invoice_candidate(invoice: &LndInvoice, node_id: &str) -> (new_tx: NewTransaction)
    ensures
        new_tx@ == candidate_of(invoice@, node_id@),
{
    let payment_hash = hex_encode(invoice.r_hash.as_slice());
    let status = lnd_state_to_tx_status(invoice.state);
    let expires_at = match invoice_expiry_second(invoice.creation_date, invoice.expiry) {
        Some(secs) => timestamp_at(secs),
        None => None,
    };
    let description = if invoice.memo.as_str().is_empty() {
        None
    } else {
        Some(invoice.memo.clone())
    };
    NewTransaction::new(
        TxType::Invoice,
        payment_hash,
        invoice.payment_request.clone(),
        invoice.value,
        description,
        status,
        expires_at,
        String::from_str(node_id),
    )
}

/// The notification for an invoice that an upsert changed: created while
/// pending, settled once succeeded, expired once expired. A failed status is
/// none that an invoice takes, and is not announced.
pub open spec fn change_for(status: TxStatus, record: Record) -> Option<Change> {
    match status {
        TxStatus::Pending => Some(Change::InvoiceCreated(record)),
        TxStatus::Succeeded => Some(Change::InvoiceSettled(record)),
        TxStatus::Expired => Some(Change::InvoiceExpired(record)),
        TxStatus::Failed => None,
    }
}

/// The view of an optional event.
pub open spec fn change_of(event: Option<InvoiceEvent>) -> Option<Change> {
    match event {
        Some(event) => Some(event@),
        None => None,
    }
}

/// Chooses the notification for an invoice that an upsert changed.
pub fn event_for(status: TxStatus, tx: Transaction) -> (event: Option<InvoiceEvent>)
    ensures
        change_of(event) == change_for(status, tx@),
{
    match status {
        TxStatus::Pending => Some(InvoiceEvent::InvoiceCreated { tx }),
        TxStatus::Succeeded => Some(InvoiceEvent::InvoiceSettled { tx }),
        TxStatus::Expired => Some(InvoiceEvent::InvoiceExpired { tx }),
        TxStatus::Failed => None,
    }
}

/// What a pass over the node's invoices did.
#[derive(Debug, Clone, Copy, PartialEq, Eq, Structural)]
pub struct SyncSummary {
    /// Invoices that the node listed.
    pub total: usize,
    /// Invoices that were inserted or whose status changed.
    pub changed: usize,
    /// Invoices that the store reflected already.
    pub unchanged: usize,
    /// Invoices that the store failed on.
    pub failed: usize,
}

/// The counts of a pass, as numbers without bound.
pub struct Tally {
    pub changed: nat,
    pub unchanged: nat,
    pub failed: nat,
}

impl Tally {
    /// The counts with the outcome of one more upsert.
    pub open spec fn with(self, outcome: Result<Option<Record>, DbFailure>) -> Tally {
        match outcome {
            Ok(Some(_)) => Tally { changed: self.changed + 1, ..self },
            Ok(None) => Tally { unchanged: self.unchanged + 1, ..self },
            Err(_) => Tally { failed: self.failed + 1, ..self },
        }
    }
}

/// The records after the invoices were upserted one after the other.
pub open spec fn synced(
    s: Seq<Record>,
    invoices: Seq<Invoice>,
    node_id: Seq<char>,
    now: Timestamp,
) -> Seq<Record>
    decreases invoices.len(),
{
    if invoices.len() == 0 {
        s
    } else {
        after_upsert(
            synced(s, invoices.drop_last(), node_id, now),
            candidate_of(invoices.last(), node_id),
            now,
        )
    }
}

/// The counts after the invoices were upserted one after the other.
pub open spec fn tallied(
    s: Seq<Record>,
    invoices: Seq<Invoice>,
    node_id: Seq<char>,
    now: Timestamp,
) -> Tally
    decreases invoices.len(),
{
    if invoices.len() == 0 {
        Tally { changed: 0, unchanged: 0, failed: 0 }
    } else {
        tallied(s, invoices.drop_last(), node_id, now).with(
            upsert_outcome(
                synced(s, invoices.drop_last(), node_id, now),
                candidate_of(invoices.last(), node_id),
                now,
            ),
        )
    }
}

/// Every invoice of a pass is counted once.
pub proof fn lemma_tally_is_complete(
    s: Seq<Record>,
    invoices: Seq<Invoice>,
    node_id: Seq<char>,
    now: Timestamp,
)
    ensures
        ({
            let tally = tallied(s, invoices, node_id, now);
            tally.changed + tally.unchanged + tally.failed == invoices.len()
        }),
    decreases invoices.len(),
{
    if invoices.len() > 0 {
        lemma_tally_is_complete(s, invoices.drop_last(), node_id, now);
    }
}

impl SyncSummary {
    /// The summary of a pass over `total` invoices, before any was
    /// upserted.
    pub fn start(total: usize) -> (summary: SyncSummary)
        ensures
            summary == (SyncSummary { total, changed: 0, unchanged: 0, failed: 0 }),
    {
        SyncSummary { total, changed: 0, unchanged: 0, failed: 0 }
    }

    /// The counts of the summary.
    pub open spec fn tally(self) -> Tally {
        Tally {
            changed: self.changed as nat,
            unchanged: self.unchanged as nat,
            failed: self.failed as nat,
        }
    }

    /// Counts the outcome of one more upsert.
    pub fn record(&mut self, outcome: &Result<Option<Transaction>, DbError>)
        requires
            old(self).changed < usize::MAX,
            old(self).unchanged < usize::MAX,
            old(self).failed < usize::MAX,
        ensures
            final(self).total == old(self).total,
            final(self).tally() == old(self).tally().with(
                match *outcome {
                    Ok(Some(tx)) => Ok(Some(tx@)),
                    Ok(None) => Ok(None),
                    Err(e) => Err(e@),
                },
            ),
    {
        match outcome {
            Ok(Some(_)) => {
                self.changed = self.changed + 1;
            },
            Ok(None) => {
                self.unchanged = self.unchanged + 1;
            },
            Err(_) => {
                self.failed = self.failed + 1;
            },
        }
    }
}

/// How a pass over the node's invoices ended.
#[derive(Debug, Clone, PartialEq, Eq)]
pub enum SyncReport {
    /// The node did not give its list. The store is as it was.
    ListFailed(LndError),
    /// Every listed invoice was upserted.
    Synced(SyncSummary),
}

/// The views of a list of invoices.
pub open spec fn invoices_of(invoices: Seq<LndInvoice>) -> Seq<Invoice> {
    invoices.map_values(|invoice: LndInvoice| invoice@)
}

/// Brings the store up to the node's list of invoices.
///
/// Every listed invoice is upserted, in the order of the list, and is
/// counted as changed, unchanged or failed. Where the node did
/// not give its list, nothing is done.
pub fn sync_invoices_from_lnd(
    listing: Result<Vec<LndInvoice>, LndError>,
    store: &mut Store,
    node_id: &str,
    now: Timestamp,
) -> (report: SyncReport)
    ensures
        well_formed(final(store)@),
        match listing {
            Err(e) => report == SyncReport::ListFailed(e) && final(store)@ == old(store)@,
            Ok(invoices) => {
                &&& report matches SyncReport::Synced(summary)
                &&& summary.total == invoices.len()
                &&& summary.tally() == tallied(
                    old(store)@,
                    invoices_of(invoices@),
                    node_id@,
                    now,
                )
                &&& final(store)@ == synced(old(store)@, invoices_of(invoices@), node_id@, now)
            },
        },
{
    proof {
        use_type_invariant(&*store);
    }
    let invoices = match listing {
        Ok(invoices) => invoices,
        Err(e) => {
            return SyncReport::ListFailed(e);
        },
    };
    let ghost listed = invoices_of(invoices@);
    let mut summary = SyncSummary::start(invoices.len());
    let mut i: usize = 0;
    while i < invoices.len()
        invariant
            i <= invoices.len(),
            listed == invoices_of(invoices@),
            summary.total == invoices.len(),
            well_formed(store@),
            summary.tally() == tallied(old(store)@, listed.take(i as int), node_id@, now),
            store@ == synced(old(store)@, listed.take(i as int), node_id@, now),
        decreases invoices.len() - i,
    {
        proof {
            lemma_tally_is_complete(old(store)@, listed.take(i as int), node_id@, now);
            assert(listed.take(i + 1).drop_last() =~= listed.take(i as int));
            assert(listed.take(i + 1).last() == invoices[i as int]@);
        }
        let new_tx = invoice_candidate(&invoices[i], node_id);
        let outcome = upsert_transaction(store, new_tx, now);
        summary.record(&outcome);
        i += 1;
    }
    proof {
        assert(listed.take(i as int) =~= listed);
    }
    SyncReport::Synced(summary)
}

/// What an upsert of a candidate makes known: the change to the record
/// where there was one to an invoice status, and nothing where the store
/// reflected the candidate already or failed.
pub open spec fn announcement(s: Seq<Record>, candidate: Candidate, now: Timestamp) -> Option<
    Change,
> {
    match upsert_outcome(s, candidate, now) {
        Ok(Some(record)) => change_for(candidate.status, record),
        _ => None,
    }
}

/// The same candidate is announced once at most: a second upsert of it
/// announces nothing.
pub proof fn lemma_announced_once(
    s: Seq<Record>,
    candidate: Candidate,
    first: Timestamp,
    second: Timestamp,
)
    requires
        well_formed(s),
        upsert_outcome(s, candidate, first) is Ok,
    ensures
        announcement(after_upsert(s, candidate, first), candidate, second) is None,
{
    lemma_upsert_idempotent(s, candidate, first, second);
}

/// Takes in one invoice that the node reported: upserts it and announces
/// the change on the bus, if the store changed.
///
/// Returns the announcement. `listener` is a subscription of the bus, if the
/// caller holds one: with it the announcement is sure to be taken. An
/// announcement that finds no subscriber is dropped, which is no error.
/// Fails where the store fails.
pub fn handle_invoice_event(
    invoice: &LndInvoice,
    store: &mut Store,
    bus: &mut EventBus,
    listener: Option<&Subscription>,
    node_id: &str,
    now: Timestamp,
) -> (res: Result<Option<InvoiceEvent>, DbError>)
    requires
        old(bus).wf(),
    ensures
        final(bus).wf(),
        final(bus).retained() == old(bus).retained(),
        forall|subscription: Subscription| #[trigger]
            subscription.attached_to(old(bus)) ==> subscription.attached_to(final(bus)),
        well_formed(final(store)@),
        final(store)@ == after_upsert(old(store)@, candidate_of(invoice@, node_id@), now),
        match res {
            Ok(event) => {
                &&& upsert_outcome(old(store)@, candidate_of(invoice@, node_id@), now) is Ok
                &&& change_of(event) == announcement(
                    old(store)@,
                    candidate_of(invoice@, node_id@),
                    now,
                )
                &&& announced(
                    old(bus).events(),
                    final(bus).events(),
                    change_of(event),
                    listener matches Some(held) && held.attached_to(old(bus))
                        && old(bus).events().len() < u64::MAX,
                )
            },
            Err(e) => {
                &&& upsert_outcome(old(store)@, candidate_of(invoice@, node_id@), now) == Err::<
                    Option<Record>,
                    DbFailure,
                >(e@)
                &&& final(bus).events() == old(bus).events()
            },
        },
{
    let new_tx = invoice_candidate(invoice, node_id);
    let status = new_tx.status;
    match upsert_transaction(store, new_tx, now) {
        Err(e) => Err(e),
        Ok(None) => Ok(None),
        Ok(Some(tx)) => match event_for(status, tx) {
            None => Ok(None),
            Some(event) => {
                let copy = event.duplicate();
                bus.publish_to(event, listener);
                Ok(Some(copy))
            },
        },
    }
}

/// Seconds to wait before the stream of invoice changes is opened again.
pub const RECONNECT_DELAY_SECONDS: u64 = 5;

/// Where the loop that follows the node's invoice changes stands.
#[derive(Debug, Clone, Copy, PartialEq, Eq, Structural)]
pub enum SubscriptionState {
    /// The node was asked for the stream.
    Connecting,
    /// The next change of the stream is awaited.
    Streaming,
    /// The delay before the next attempt is running.
    Waiting,
}

/// What happened to the loop.
#[derive(Debug, Clone, PartialEq, Eq)]
pub enum SubscriptionEvent {
    /// The node opened the stream.
    Subscribed,
    /// The node did not open the stream.
    SubscribeFailed(LndError),
    /// The stream brought an invoice.
    Invoice(LndInvoice),
    /// The invoice that the stream brought was taken in.
    Handled,
    /// The stream broke.
    StreamFailed(LndError),
    /// The node ended the stream.
    StreamEnded,
    /// The delay is over.
    Waited,
}

/// What the loop does next.
#[derive(Debug, Clone, PartialEq, Eq)]
pub enum SubscriptionAction {
    /// Ask the node for the stream.
    Subscribe,
    /// Await the next change of the stream.
    Receive,
    /// Take in the invoice.
    Handle(LndInvoice),
    /// Wait for so many seconds.
    Wait(u64),
}

/// What happened to the loop, in mathematical terms.
pub enum Signal {
    Subscribed,
    SubscribeFailed(LndFailure),
    Invoice(Invoice),
    Handled,
    StreamFailed(LndFailure),
    StreamEnded,
    Waited,
}

/// What the loop does next, in mathematical terms.
pub enum Step {
    Subscribe,
    Receive,
    Handle(Invoice),
    Wait(u64),
}

impl View for SubscriptionEvent {
    type V = Signal;

    open spec fn view(&self) -> Signal {
        match self {
            SubscriptionEvent::Subscribed => Signal::Subscribed,
            SubscriptionEvent::SubscribeFailed(e) => Signal::SubscribeFailed(e@),
            SubscriptionEvent::Invoice(invoice) => Signal::Invoice(invoice@),
            SubscriptionEvent::Handled => Signal::Handled,
            SubscriptionEvent::StreamFailed(e) => Signal::StreamFailed(e@),
            SubscriptionEvent::StreamEnded => Signal::StreamEnded,
            SubscriptionEvent::Waited => Signal::Waited,
        }
    }
}

impl View for SubscriptionAction {
    type V = Step;

    open spec fn view(&self) -> Step {
        match self {
            SubscriptionAction::Subscribe => Step::Subscribe,
            SubscriptionAction::Receive => Step::Receive,
            SubscriptionAction::Handle(invoice) => Step::Handle(invoice@),
            SubscriptionAction::Wait(seconds) => Step::Wait(*seconds),
        }
    }
}

/// The state of the loop after something happened.
///
/// An attempt that succeeds leads to the stream, and one that fails to the
/// delay. An invoice, and its having been taken in, leave the loop at the
/// stream; a stream that breaks or ends leads to the delay. The end of the
/// delay leads to the next attempt. What does not answer to the state leaves
/// it as it is. No state is the last.
pub open spec fn next_state(state: SubscriptionState, signal: Signal) -> SubscriptionState {
    match (state, signal) {
        (SubscriptionState::Connecting, Signal::Subscribed) => SubscriptionState::Streaming,
        (SubscriptionState::Connecting, Signal::SubscribeFailed(_)) => SubscriptionState::Waiting,
        (SubscriptionState::Streaming, Signal::StreamFailed(_)) => SubscriptionState::Waiting,
        (SubscriptionState::Streaming, Signal::StreamEnded) => SubscriptionState::Waiting,
        (SubscriptionState::Waiting, Signal::Waited) => SubscriptionState::Connecting,
        (state, _) => state,
    }
}

/// What the loop does after something happened: it takes in an invoice that
/// the stream brought, and otherwise does what its new state asks for.
pub open spec fn next_step(state: SubscriptionState, signal: Signal) -> Step {
    match (state, signal) {
        (SubscriptionState::Streaming, Signal::Invoice(invoice)) => Step::Handle(invoice),
        _ => match next_state(state, signal) {
            SubscriptionState::Connecting => Step::Subscribe,
            SubscriptionState::Streaming => Step::Receive,
            SubscriptionState::Waiting => Step::Wait(RECONNECT_DELAY_SECONDS),
        },
    }
}

/// The state in which the loop begins, asking the node for the stream.
pub fn subscription_start() -> (start: (SubscriptionState, SubscriptionAction))
    ensures
        start.0 == SubscriptionState::Connecting,
        start.1@ == Step::Subscribe,
{
    (SubscriptionState::Connecting, SubscriptionAction::Subscribe)
}

/// One turn of the loop that follows the node's invoice changes: where the
/// loop stands after `event`, and what it does next.
///
/// The loop has no end. Whenever the stream cannot be opened, breaks or
/// ends, the loop waits five seconds and asks for the stream again.
pub fn subscribe_to_invoices(state: SubscriptionState, event: SubscriptionEvent) -> (next: (
    SubscriptionState,
    SubscriptionAction,
))
    ensures
        next.0 == next_state(state, event@),
        next.1@ == next_step(state, event@),
{
    match (state, event) {
        (SubscriptionState::Connecting, SubscriptionEvent::Subscribed) => (
            SubscriptionState::Streaming,
            SubscriptionAction::Receive,
        ),
        (SubscriptionState::Connecting, SubscriptionEvent::SubscribeFailed(_)) => (
            SubscriptionState::Waiting,
            SubscriptionAction::Wait(RECONNECT_DELAY_SECONDS),
        ),
        (SubscriptionState::Streaming, SubscriptionEvent::Invoice(invoice)) => (
            SubscriptionState::Streaming,
            SubscriptionAction::Handle(invoice),
        ),
        (SubscriptionState::Streaming, SubscriptionEvent::StreamFailed(_)) => (
            SubscriptionState::Waiting,
            SubscriptionAction::Wait(RECONNECT_DELAY_SECONDS),
        ),
        (SubscriptionState::Streaming, SubscriptionEvent::StreamEnded) => (
            SubscriptionState::Waiting,
            SubscriptionAction::Wait(RECONNECT_DELAY_SECONDS),
        ),
        (SubscriptionState::Waiting, SubscriptionEvent::Waited) => (
            SubscriptionState::Connecting,
            SubscriptionAction::Subscribe,
        ),
        (SubscriptionState::Connecting, _) => (
            SubscriptionState::Connecting,
            SubscriptionAction::Subscribe,
        ),
        (SubscriptionState::Streaming, _) => (
            SubscriptionState::Streaming,
            SubscriptionAction::Receive,
        ),
        (SubscriptionState::Waiting, _) => (
            SubscriptionState::Waiting,
            SubscriptionAction::Wait(RECONNECT_DELAY_SECONDS),
        ),
    }
}

/// The state of the loop after a run of happenings.
pub open spec fn state_after(state: SubscriptionState, signals: Seq<Signal>) -> SubscriptionState
    decreases signals.len(),
{
    if signals.len() == 0 {
        state
    } else {
        next_state(state_after(state, signals.drop_last()), signals.last())
    }
}

/// How often the loop asked the node for the stream in a run of happenings.
pub open spec fn attempts_in(state: SubscriptionState, signals: Seq<Signal>) -> nat
    decreases signals.len(),
{
    if signals.len() == 0 {
        0
    } else {
        let before = state_after(state, signals.drop_last());
        attempts_in(state, signals.drop_last()) + if next_step(before, signals.last())
            == Step::Subscribe {
            1nat
        } else {
            0nat
        }
    }
}

/// So many rounds of a stream that is opened and ends at once, each followed
/// by the delay.
pub open spec fn ended_rounds(rounds: nat) -> Seq<Signal>
    decreases rounds,
{
    if rounds == 0 {
        Seq::empty()
    } else {
        ended_rounds((rounds - 1) as nat).push(Signal::Subscribed).push(Signal::StreamEnded).push(
            Signal::Waited,
        )
    }
}

/// Whatever state the loop is in and whatever happens, a stream that breaks
/// or ends is followed by the delay and then by another attempt.
pub proof fn lemma_stream_end_reconnects(signal: Signal)
    requires
        signal is StreamEnded || signal is StreamFailed,
    ensures
        next_state(SubscriptionState::Streaming, signal) == SubscriptionState::Waiting,
        next_step(SubscriptionState::Streaming, signal) == Step::Wait(RECONNECT_DELAY_SECONDS),
        next_state(SubscriptionState::Waiting, Signal::Waited) == SubscriptionState::Connecting,
        next_step(SubscriptionState::Waiting, Signal::Waited) == Step::Subscribe,
{
}

/// A stream that ends at once, time after time, does not stop the loop:
/// after any number of such rounds the loop has asked for the stream once
/// more for each round and is waiting for the node's answer.
pub proof fn lemma_reconnects_without_end(rounds: nat)
    ensures
        state_after(SubscriptionState::Connecting, ended_rounds(rounds))
            == SubscriptionState::Connecting,
        attempts_in(SubscriptionState::Connecting, ended_rounds(rounds)) == rounds,
    decreases rounds,
{
    if rounds > 0 {
        lemma_reconnects_without_end((rounds - 1) as nat);
        let start = SubscriptionState::Connecting;
        let before = ended_rounds((rounds - 1) as nat);
        let one = before.push(Signal::Subscribed);
        let two = one.push(Signal::StreamEnded);
        let three = two.push(Signal::Waited);
        assert(one.drop_last() =~= before);
        assert(two.drop_last() =~= one);
        assert(three.drop_last() =~= two);
        assert(state_after(start, one) == SubscriptionState::Streaming);
        assert(state_after(start, two) == SubscriptionState::Waiting);
        assert(state_after(start, three) == SubscriptionState::Connecting);
        assert(attempts_in(start, one) == attempts_in(start, before));
        assert(attempts_in(start, two) == attempts_in(start, one));
        assert(attempts_in(start, three) == attempts_in(start, two) + 1);
    }
}

} // verus!
