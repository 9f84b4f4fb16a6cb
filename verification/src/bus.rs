//! The broadcast bus: one ordered, bounded channel that carries every event to
//! every subscriber. The channel itself is `tokio::sync::broadcast`; this
//! module states what the relay relies on and proves the rest from it.

use tokio::sync::broadcast::error::TryRecvError;
use tokio::sync::broadcast::{Receiver, Sender};
use vstd::prelude::*;
use crate::message::{Message, MessageView};

verus! {

#[verifier::external_type_specification]
#[verifier::external_body]
#[verifier::reject_recursive_types(T)]
pub struct ExSender<T>(Sender<T>);

#[verifier::external_type_specification]
#[verifier::external_body]
#[verifier::reject_recursive_types(T)]
pub struct ExReceiver<T>(Receiver<T>);

/// Every event that was accepted by the channel behind `tx`, oldest first.
pub uninterp spec fn bus_history(tx: Sender<Message>) -> Seq<MessageView>;

/// How many of the newest events the channel behind `tx` retains.
pub uninterp spec fn bus_capacity(tx: Sender<Message>) -> nat;

/// Which channel `tx` sends into.
pub uninterp spec fn bus_channel(tx: Sender<Message>) -> int;

/// Which channel `rx` reads from.
pub uninterp spec fn subscription_channel(rx: Receiver<Message>) -> int;

/// The position in the channel's history of the event that `rx` reads next.
pub uninterp spec fn subscription_cursor(rx: Receiver<Message>) -> nat;

/// The smallest power of two that is at least `requested`.
pub open spec fn effective_capacity(requested: nat) -> nat
    decreases requested,
{
    if requested <= 1 {
        1
    } else {
        2 * effective_capacity((requested + 1) / 2)
    }
}

/// Two to the power of `exponent`.
pub open spec fn power_of_two(exponent: nat) -> nat
    decreases exponent,
{
    if exponent == 0 {
        1
    } else {
        2 * power_of_two((exponent - 1) as nat)
    }
}

/// The effective capacity is a power of two, is at least what was asked for,
/// and is less than twice that: it is the smallest such power.
pub proof fn lemma_effective_capacity(requested: nat)
    ensures
        exists|exponent: nat| effective_capacity(requested) == power_of_two(exponent),
        effective_capacity(requested) >= 1,
        effective_capacity(requested) >= requested,
        requested >= 1 ==> effective_capacity(requested) < 2 * requested,
    decreases requested,
{
    if requested <= 1 {
        assert(effective_capacity(requested) == power_of_two(0));
    } else {
        let half = (requested + 1) / 2;
        lemma_effective_capacity(half);
        let exponent = choose|exponent: nat| effective_capacity(half) == power_of_two(exponent);
        assert(effective_capacity(requested) == power_of_two(exponent + 1));
    }
}

/// What one read yields.
#[derive(Debug)]
pub enum Delivery {
    /// The next event, in publish order.
    Event(Message),
    /// The subscriber fell behind and this many events are lost to it. It
    /// stays subscribed; the next read yields the oldest event still retained.
    Lagged(u64),
    /// Nothing has been published that the subscriber has not seen.
    Empty,
    /// The subscription does not belong to a live bus.
    Closed,
}

/// The mathematical value of a `Delivery`.
pub enum DeliveryView {
    Event(MessageView),
    Lagged(nat),
    Empty,
    Closed,
}

impl View for Delivery {
    type V = DeliveryView;

    open spec fn view(&self) -> DeliveryView {
        match self {
            Delivery::Event(m) => DeliveryView::Event(m@),
            Delivery::Lagged(n) => DeliveryView::Lagged(*n as nat),
            Delivery::Empty => DeliveryView::Empty,
            Delivery::Closed => DeliveryView::Closed,
        }
    }
}

/// What a subscriber at `cursor` reads next from a bus with this history.
pub open spec fn next_delivery(history: Seq<MessageView>, capacity: nat, cursor: nat)
    -> DeliveryView {
    if cursor >= history.len() {
        DeliveryView::Empty
    } else if history.len() - cursor > capacity {
        DeliveryView::Lagged((history.len() - capacity - cursor) as nat)
    } else {
        DeliveryView::Event(history[cursor as int])
    }
}

/// Where that read leaves the subscriber.
pub open spec fn cursor_after(history: Seq<MessageView>, capacity: nat, cursor: nat) -> nat {
    if cursor >= history.len() {
        cursor
    } else if history.len() - cursor > capacity {
        (history.len() - capacity) as nat
    } else {
        cursor + 1
    }
}

/// Opens a channel with `tokio::sync::broadcast::channel`. Trusted: the
/// channel starts without events, retains `capacity` rounded up to a power of
/// two, and the receiver that comes with it reads that channel from its start.
/// The bounds are those outside which `channel` panics.
#[verifier::external_body]
fn open_channel(capacity: usize) -> (ends: (Sender<Message>, Receiver<Message>))
    requires
        0 < capacity <= usize::MAX / 2,
    ensures
        bus_history(ends.0) == Seq::<MessageView>::empty(),
        bus_capacity(ends.0) == effective_capacity(capacity as nat),
        subscription_channel(ends.1) == bus_channel(ends.0),
        subscription_cursor(ends.1) == 0,
{
    tokio::sync::broadcast::channel(capacity)
}

/// Sends with `Sender::send`. `witness` is a live receiver of the channel of
/// `tx`. Trusted: `send` fails only when no receiver is alive, so here it
/// succeeds: the event is appended to the history, and the count of live
/// receivers comes back. Positions in the channel are 64-bit, hence the bound.
#[verifier::external_body]
fn send_raw(tx: &mut Sender<Message>, witness: &Receiver<Message>, event: Message) -> (r: Option<
    usize,
>)
    requires
        subscription_channel(*witness) == bus_channel(*old(tx)),
        bus_history(*old(tx)).len() < u64::MAX,
    ensures
        r is Some,
        r->0 >= 1,
        bus_channel(*final(tx)) == bus_channel(*old(tx)),
        bus_capacity(*final(tx)) == bus_capacity(*old(tx)),
        bus_history(*final(tx)) == bus_history(*old(tx)).push(event@),
{
    let _ = witness;
    tx.send(event).ok()
}

/// Subscribes with `Sender::subscribe`. Trusted: the receiver reads the
/// channel of `tx` and starts after everything sent so far.
#[verifier::external_body]
fn subscribe_raw(tx: &Sender<Message>) -> (rx: Receiver<Message>)
    ensures
        subscription_channel(rx) == bus_channel(*tx),
        subscription_cursor(rx) == bus_history(*tx).len(),
{
    tx.subscribe()
}

/// Compares with `Receiver::same_channel`. Trusted: true exactly when both
/// read the same channel.
#[verifier::external_body]
fn same_channel_raw(a: &Receiver<Message>, b: &Receiver<Message>) -> (same: bool)
    ensures
        same == (subscription_channel(*a) == subscription_channel(*b)),
{
    a.same_channel(b)
}

/// Reads with `Receiver::try_recv`. `tx` is the live sender of the channel
/// that `rx` reads; it is what the history is read from. Trusted: the receiver
/// gets the event at its cursor and moves on by one; or, when more than the
/// capacity stands between it and the newest event, it is told how many it
/// lost and moves to the oldest retained; or, with nothing new, it stays.
#[verifier::external_body]
fn try_recv_raw(tx: &Sender<Message>, rx: &mut Receiver<Message>) -> (r: Delivery)
    requires
        subscription_channel(*old(rx)) == bus_channel(*tx),
        bus_history(*tx).len() <= u64::MAX,
    ensures
        subscription_channel(*final(rx)) == subscription_channel(*old(rx)),
        r@ == next_delivery(bus_history(*tx), bus_capacity(*tx), subscription_cursor(*old(rx))),
        subscription_cursor(*final(rx)) == cursor_after(
            bus_history(*tx),
            bus_capacity(*tx),
            subscription_cursor(*old(rx)),
        ),
{
    let _ = tx;
    match rx.try_recv() {
        Ok(event) => Delivery::Event(event),
        Err(TryRecvError::Lagged(missed)) => Delivery::Lagged(missed),
        Err(TryRecvError::Empty) => Delivery::Empty,
        Err(TryRecvError::Closed) => Delivery::Closed,
    }
}

/// Why an event was not published.
#[derive(Debug, Clone, Copy, PartialEq, Eq, Structural)]
pub enum PublishError {
    /// The bus has carried as many events as it can number.
    Exhausted,
}

/// The sending side of the bus, held by the relay.
pub struct BroadcastBus {
    tx: Sender<Message>,
    /// Keeps the channel open while nobody is connected.
    keepalive: Receiver<Message>,
    published: u64,
}

/// One connection's receive handle on the bus.
pub struct Subscription {
    rx: Receiver<Message>,
}

impl BroadcastBus {
    /// The backlog that a bus retains when nothing else is asked for.
    pub const DEFAULT_CAPACITY: usize = 100;

    /// The bus counts what it has published, keeps its own channel open, and
    /// retains at least one event.
    pub closed spec fn wf(&self) -> bool {
        &&& self.published == bus_history(self.tx).len()
        &&& subscription_channel(self.keepalive) == bus_channel(self.tx)
        &&& bus_capacity(self.tx) >= 1
    }

    /// A bus retains at least one event, and has not published more than it
    /// can number.
    pub proof fn lemma_retains(&self)
        requires
            self.wf(),
        ensures
            self.capacity() >= 1,
            self.history().len() <= u64::MAX,
    {
    }

    /// Every event published so far, oldest first.
    pub closed spec fn history(&self) -> Seq<MessageView> {
        bus_history(self.tx)
    }

    /// How many of the newest events are retained for a slow subscriber.
    pub closed spec fn capacity(&self) -> nat {
        bus_capacity(self.tx)
    }

    /// Which bus this is: what a subscription of it is attached to.
    pub closed spec fn channel(&self) -> int {
        bus_channel(self.tx)
    }

    /// A bus that retains `capacity` events, rounded up to a power of two.
    pub fn new(capacity: usize) -> (bus: Self)
        requires
            0 < capacity <= usize::MAX / 2,
        ensures
            bus.wf(),
            bus.history() == Seq::<MessageView>::empty(),
            bus.capacity() == effective_capacity(capacity as nat),
            bus.capacity() >= capacity,
    {
        proof {
            lemma_effective_capacity(capacity as nat);
        }
        let (tx, keepalive) = open_channel(capacity);
        BroadcastBus { tx, keepalive, published: 0 }
    }

    /// How many events have been published.
    pub fn published(&self) -> (n: u64)
        requires
            self.wf(),
        ensures
            n == self.history().len(),
    {
        self.published
    }

    /// Appends `event` to the history, for every subscriber to read in its
    /// turn. A slow subscriber never holds this up, and a bus without
    /// subscribers takes the event all the same. The one thing that stops it
    /// is the count of events running out. Returns how many handles are
    /// attached, the bus's own among them.
    pub fn publish(&mut self, event: Message) -> (r: Result<usize, PublishError>)
        requires
            old(self).wf(),
        ensures
            final(self).wf(),
            final(self).channel() == old(self).channel(),
            final(self).capacity() == old(self).capacity(),
            old(self).history().len() < u64::MAX ==> {
                &&& r is Ok
                &&& r->Ok_0 >= 1
                &&& final(self).history() == old(self).history().push(event@)
            },
            old(self).history().len() >= u64::MAX ==> r == Err::<usize, PublishError>(
                PublishError::Exhausted,
            ) && final(self).history() == old(self).history(),
    {
        if self.published == u64::MAX {
            return Err(PublishError::Exhausted);
        }
        let receivers = send_raw(&mut self.tx, &self.keepalive, event).unwrap();
        self.published = self.published + 1;
        Ok(receivers)
    }

    /// A new handle that reads what is published from now on.
    pub fn subscribe(&self) -> (s: Subscription)
        ensures
            s.attached_to(self),
            s.cursor() == self.history().len(),
    {
        Subscription { rx: subscribe_raw(&self.tx) }
    }
}

impl Subscription {
    /// The position in the history of the event that is read next.
    pub closed spec fn cursor(&self) -> nat {
        subscription_cursor(self.rx)
    }

    /// Which bus this handle reads.
    pub closed spec fn channel(&self) -> int {
        subscription_channel(self.rx)
    }

    /// Whether this handle reads `bus`.
    pub open spec fn attached_to(&self, bus: &BroadcastBus) -> bool {
        self.channel() == bus.channel()
    }

    /// Reads the next event of `bus`, if there is one, without waiting. A
    /// handle that was made by another bus reads nothing here.
    pub fn poll(&mut self, bus: &BroadcastBus) -> (r: Delivery)
        requires
            bus.wf(),
        ensures
            final(self).channel() == old(self).channel(),
            old(self).attached_to(bus) ==> {
                &&& r@ == next_delivery(bus.history(), bus.capacity(), old(self).cursor())
                &&& final(self).cursor() == cursor_after(
                    bus.history(),
                    bus.capacity(),
                    old(self).cursor(),
                )
            },
            !old(self).attached_to(bus) ==> {
                &&& r@ == DeliveryView::Closed
                &&& final(self).cursor() == old(self).cursor()
            },
    {
        if !same_channel_raw(&self.rx, &bus.keepalive) {
            return Delivery::Closed;
        }
        try_recv_raw(&bus.tx, &mut self.rx)
    }

    /// Reads everything that is waiting on `bus`. Returns the events, in
    /// publish order, and how many events were lost before the first of
    /// them. What is returned is all that the bus still retains of what the
    /// handle had not read.
    pub fn drain(&mut self, bus: &BroadcastBus) -> (r: (Vec<Message>, u64))
        requires
            bus.wf(),
        ensures
            final(self).channel() == old(self).channel(),
            old(self).attached_to(bus) && old(self).cursor() <= bus.history().len() ==> {
                &&& views(r.0@) == bus.history().subrange(
                    resume_point(bus.history(), bus.capacity(), old(self).cursor()) as int,
                    bus.history().len() as int,
                )
                &&& r.1 + old(self).cursor() == resume_point(
                    bus.history(),
                    bus.capacity(),
                    old(self).cursor(),
                )
                &&& final(self).cursor() == bus.history().len()
            },
            !(old(self).attached_to(bus) && old(self).cursor() <= bus.history().len()) ==> {
                &&& r.0@.len() == 0
                &&& r.1 == 0
                &&& final(self).cursor() == old(self).cursor()
            },
    {
        let ghost history = bus.history();
        let ghost start = resume_point(history, bus.capacity(), self.cursor());
        let mut events: Vec<Message> = Vec::new();
        let mut missed: u64 = 0;
        let mut more = true;
        match self.poll(bus) {
            Delivery::Event(event) => {
                events.push(event);
            },
            Delivery::Lagged(lost) => {
                missed = lost;
            },
            _ => {
                more = false;
            },
        }
        proof {
            if more {
                assert(views(events@) =~= history.subrange(start as int, self.cursor() as int));
            } else if old(self).attached_to(bus) && old(self).cursor() <= history.len() {
                assert(views(events@) =~= history.subrange(start as int, history.len() as int));
            }
        }
        while more
            invariant
                bus.wf(),
                history == bus.history(),
                self.channel() == old(self).channel(),
                more ==> {
                    &&& self.attached_to(bus)
                    &&& old(self).cursor() <= history.len()
                    &&& start <= self.cursor() <= history.len()
                    &&& history.len() - self.cursor() <= bus.capacity()
                    &&& views(events@) == history.subrange(start as int, self.cursor() as int)
                    &&& missed == start - old(self).cursor()
                },
                !more && old(self).attached_to(bus) && old(self).cursor() <= history.len() ==> {
                    &&& views(events@) == history.subrange(start as int, history.len() as int)
                    &&& missed == start - old(self).cursor()
                    &&& self.cursor() == history.len()
                },
                !more && !(old(self).attached_to(bus) && old(self).cursor() <= history.len()) ==> {
                    &&& events@.len() == 0
                    &&& missed == 0
                    &&& self.cursor() == old(self).cursor()
                },
            decreases history.len() - self.cursor() + if more { 1int } else { 0int },
        {
            let ghost before = views(events@);
            let ghost at = self.cursor();
            match self.poll(bus) {
                Delivery::Event(event) => {
                    events.push(event);
                    proof {
                        assert(views(events@) =~= before.push(history[at as int]));
                        assert(views(events@) =~= history.subrange(
                            start as int,
                            self.cursor() as int,
                        ));
                    }
                },
                _ => {
                    more = false;
                },
            }
        }
        (events, missed)
    }
}

/// Where a subscriber at `cursor` resumes reading: at its cursor, or, where
/// the bus no longer retains what stands there, at the oldest retained event.
pub open spec fn resume_point(history: Seq<MessageView>, capacity: nat, cursor: nat) -> nat {
    if history.len() - cursor > capacity {
        (history.len() - capacity) as nat
    } else {
        cursor
    }
}

/// The values of `events`, in their order.
pub open spec fn views(events: Seq<Message>) -> Seq<MessageView> {
    events.map_values(|event: Message| event@)
}

/// One thing that happens on the bus, as seen from one subscriber: an event is
/// published by anyone, or the subscriber reads.
pub enum BusStep {
    Publish(MessageView),
    Poll,
}

/// What one subscriber has gone through.
pub struct Reading {
    /// The history of the bus.
    pub history: Seq<MessageView>,
    /// Where the subscriber stands in it.
    pub cursor: nat,
    /// The events it has received, in the order in which it received them.
    pub received: Seq<MessageView>,
    /// For each received event, its position in the history.
    pub positions: Seq<nat>,
    /// How many events it was told it had lost.
    pub missed: nat,
}

/// A subscriber that has not read anything yet.
pub open spec fn reading_start(history: Seq<MessageView>, cursor: nat) -> Reading {
    Reading { history, cursor, received: Seq::empty(), positions: Seq::empty(), missed: 0 }
}

/// The effect of one step.
pub open spec fn reading_step(before: Reading, capacity: nat, step: BusStep) -> Reading {
    match step {
        BusStep::Publish(event) => Reading { history: before.history.push(event), ..before },
        BusStep::Poll => match next_delivery(before.history, capacity, before.cursor) {
            DeliveryView::Event(event) => Reading {
                cursor: cursor_after(before.history, capacity, before.cursor),
                received: before.received.push(event),
                positions: before.positions.push(before.cursor),
                ..before
            },
            DeliveryView::Lagged(lost) => Reading {
                cursor: cursor_after(before.history, capacity, before.cursor),
                missed: before.missed + lost,
                ..before
            },
            _ => before,
        },
    }
}

/// The effect of `steps`, in their order.
pub open spec fn reading_after(start: Reading, capacity: nat, steps: Seq<BusStep>) -> Reading
    decreases steps.len(),
{
    if steps.len() == 0 {
        start
    } else {
        reading_step(reading_after(start, capacity, steps.drop_last()), capacity, steps.last())
    }
}

/// Whatever is published and however the subscriber's reads fall between,
/// it receives events in the order in which they were published, each at most
/// once, and every position it has passed was either delivered to it or
/// counted as lost.
pub proof fn lemma_reads_follow_publish_order(
    history: Seq<MessageView>,
    capacity: nat,
    cursor: nat,
    steps: Seq<BusStep>,
)
    requires
        cursor <= history.len(),
    ensures
        ({
            let end = reading_after(reading_start(history, cursor), capacity, steps);
            &&& history.len() <= end.history.len()
            &&& end.history.subrange(0, history.len() as int) == history
            &&& cursor <= end.cursor <= end.history.len()
            &&& end.positions.len() == end.received.len()
            &&& forall|i: int|
                0 <= i < end.received.len() ==> cursor <= #[trigger] end.positions[i] < end.cursor
                    && end.received[i] == end.history[end.positions[i] as int]
            &&& forall|i: int, j: int|
                0 <= i < j < end.positions.len() ==> end.positions[i] < end.positions[j]
            &&& end.received.len() + end.missed == end.cursor - cursor
        }),
    decreases steps.len(),
{
    let start = reading_start(history, cursor);
    if steps.len() == 0 {
        assert(history.subrange(0, history.len() as int) =~= history);
    } else {
        lemma_reads_follow_publish_order(history, capacity, cursor, steps.drop_last());
        let before = reading_after(start, capacity, steps.drop_last());
        let end = reading_after(start, capacity, steps);
        assert(end == reading_step(before, capacity, steps.last()));
        assert(end.history.subrange(0, history.len() as int) =~= history) by {
            assert(before.history.subrange(0, history.len() as int) == history);
            assert forall|k: int| 0 <= k < history.len() implies end.history[k] == history[k] by {
                assert(before.history.subrange(0, history.len() as int)[k] == before.history[k]);
            }
        }
        assert forall|i: int| 0 <= i < end.received.len() implies cursor <= #[trigger] end.positions[i]
            < end.cursor && end.received[i] == end.history[end.positions[i] as int] by {
            if i < before.received.len() {
                assert(cursor <= before.positions[i] < before.cursor);
            }
        }
        assert forall|i: int, j: int| 0 <= i < j < end.positions.len() implies end.positions[i]
            < end.positions[j] by {
            if j < before.positions.len() {
                assert(before.positions[i] < before.positions[j]);
            } else {
                assert(cursor <= before.positions[i] < before.cursor);
            }
        }
    }
}

/// A subscriber that was never told of a loss has received every event that
/// was published since it subscribed, up to where it stands, in publish order:
/// of two events published one after the other it receives the first before
/// the second.
pub proof fn lemma_without_lag_nothing_is_skipped(
    history: Seq<MessageView>,
    capacity: nat,
    cursor: nat,
    steps: Seq<BusStep>,
)
    requires
        cursor <= history.len(),
        reading_after(reading_start(history, cursor), capacity, steps).missed == 0,
    ensures
        ({
            let end = reading_after(reading_start(history, cursor), capacity, steps);
            &&& cursor <= end.cursor <= end.history.len()
            &&& end.received == end.history.subrange(cursor as int, end.cursor as int)
        }),
    decreases steps.len(),
{
    let start = reading_start(history, cursor);
    lemma_reads_follow_publish_order(history, capacity, cursor, steps);
    if steps.len() == 0 {
        assert(start.received =~= history.subrange(cursor as int, cursor as int));
    } else {
        let before = reading_after(start, capacity, steps.drop_last());
        let end = reading_after(start, capacity, steps);
        assert(end == reading_step(before, capacity, steps.last()));
        lemma_reads_follow_publish_order(history, capacity, cursor, steps.drop_last());
        lemma_without_lag_nothing_is_skipped(history, capacity, cursor, steps.drop_last());
        assert(end.received =~= end.history.subrange(cursor as int, end.cursor as int));
    }
}

/// A subscriber that has fallen behind by more than the bus retains is told
/// how many events it lost, once. Its next read yields the oldest retained
/// event, which is the one right after the gap: nothing that was counted as
/// lost is delivered later, and nothing after the gap is left out.
pub proof fn lemma_lag_resumes_after_the_gap(
    history: Seq<MessageView>,
    capacity: nat,
    cursor: nat,
)
    requires
        capacity >= 1,
        cursor <= history.len(),
        history.len() - cursor > capacity,
    ensures
        next_delivery(history, capacity, cursor) == DeliveryView::Lagged(
            (history.len() - capacity - cursor) as nat,
        ),
        cursor_after(history, capacity, cursor) == history.len() - capacity,
        cursor_after(history, capacity, cursor) > cursor,
        next_delivery(history, capacity, cursor_after(history, capacity, cursor))
            == DeliveryView::Event(history[history.len() - capacity]),
        forall|k: nat|
            cursor_after(history, capacity, cursor) <= k < history.len() ==> #[trigger] next_delivery(
                history,
                capacity,
                k,
            ) == DeliveryView::Event(history[k as int]) && cursor_after(history, capacity, k) == k
                + 1,
{
}

/// An event that is published reaches every subscriber that was subscribed
/// before and is not further behind than the bus retains: reading on, the
/// subscriber receives what stood before it and then the event itself, with
/// the author and the content it was published with.
pub proof fn lemma_published_event_is_delivered(
    history: Seq<MessageView>,
    capacity: nat,
    cursor: nat,
    event: MessageView,
)
    requires
        capacity >= 1,
        cursor <= history.len(),
        history.len() + 1 - cursor <= capacity,
    ensures
        forall|k: nat|
            cursor <= k <= history.len() ==> #[trigger] next_delivery(
                history.push(event),
                capacity,
                k,
            ) == DeliveryView::Event(history.push(event)[k as int]) && cursor_after(
                history.push(event),
                capacity,
                k,
            ) == k + 1,
        next_delivery(history.push(event), capacity, history.len()) == DeliveryView::Event(event),
{
}

} // verus!
