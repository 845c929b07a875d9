//! The fan-out bus of one room.
//!
//! Every envelope published goes to every subscriber that is open at that
//! moment, in publish order. A subscriber starts with nothing pending: it is
//! not given what was published before it subscribed. The publisher never
//! waits: each subscriber may have at most `capacity` envelopes pending, and
//! one that has that many when the next is published is declared lagging. It
//! loses what was pending, is told so at its next receive, and stays lagging
//! until it unsubscribes. Other subscribers are not affected.

use crate::envelope::{Envelope, EnvelopeView};
use vstd::prelude::*;

verus! {

/// How many envelopes a room keeps pending for each subscriber.
pub const BACKLOG_CAPACITY: usize = 100;

/// One subscriber's side of the bus.
pub enum Inbox {
    /// Subscribed and keeping up: the envelopes published and not yet
    /// received, oldest first.
    Open { pending: Seq<EnvelopeView> },
    /// Fell behind by more than the capacity.
    Lagging,
    /// Unsubscribed.
    Closed,
}

impl Inbox {
    /// The inbox after `e` is published on a bus of the given capacity.
    pub open spec fn accept(self, e: EnvelopeView, capacity: nat) -> Inbox {
        match self {
            Inbox::Open { pending } => if pending.len() < capacity {
                Inbox::Open { pending: pending.push(e) }
            } else {
                Inbox::Lagging
            },
            Inbox::Lagging => Inbox::Lagging,
            Inbox::Closed => Inbox::Closed,
        }
    }

    /// The inbox fits a bus of the given capacity.
    pub open spec fn within(self, capacity: nat) -> bool {
        self matches Inbox::Open { pending } ==> pending.len() <= capacity
    }
}

/// What a receive hands to the subscriber.
pub enum DeliveryView {
    /// The oldest pending envelope.
    Envelope(EnvelopeView),
    /// Nothing is pending.
    Empty,
    /// The subscriber is lagging.
    Lagged,
    /// The subscriber has unsubscribed, or never subscribed.
    Closed,
}

/// The mathematical value of a [`Bus`]: its capacity and the inbox of every
/// subscriber it ever had, indexed by subscriber id.
pub struct BusView {
    pub capacity: nat,
    pub inboxes: Seq<Inbox>,
}

impl BusView {
    /// The capacity is positive and no inbox holds more than it.
    pub open spec fn wf(self) -> bool {
        &&& self.capacity > 0
        &&& forall|id: int| 0 <= id < self.inboxes.len() ==> (#[trigger] self.inboxes[id]).within(self.capacity)
    }

    /// A bus of the given capacity without subscribers.
    pub open spec fn fresh(capacity: nat) -> BusView {
        BusView { capacity, inboxes: Seq::empty() }
    }

    /// `id` was handed out by this bus.
    pub open spec fn has(self, id: int) -> bool {
        0 <= id < self.inboxes.len()
    }

    /// `id` is subscribed and not lagging.
    pub open spec fn is_open(self, id: int) -> bool {
        self.has(id) && self.inboxes[id] is Open
    }

    /// What `id` has pending; empty unless `id` is open.
    pub open spec fn pending(self, id: int) -> Seq<EnvelopeView> {
        if self.has(id) {
            match self.inboxes[id] {
                Inbox::Open { pending } => pending,
                _ => Seq::empty(),
            }
        } else {
            Seq::empty()
        }
    }

    /// The bus after one more subscription, whose id is the number of
    /// subscriptions made before it. Once every id that a `usize` holds is
    /// taken, nobody is subscribed any more.
    pub open spec fn subscribe(self) -> BusView {
        if self.inboxes.len() < usize::MAX {
            BusView { inboxes: self.inboxes.push(Inbox::Open { pending: Seq::empty() }), ..self }
        } else {
            self
        }
    }

    /// The bus after `e` is published.
    pub open spec fn publish(self, e: EnvelopeView) -> BusView {
        BusView {
            inboxes: Seq::new(self.inboxes.len(), |id: int| self.inboxes[id].accept(e, self.capacity)),
            ..self
        }
    }

    /// What a receive by `id` hands out.
    pub open spec fn delivery(self, id: int) -> DeliveryView {
        if !self.has(id) {
            DeliveryView::Closed
        } else {
            match self.inboxes[id] {
                Inbox::Open { pending } => if pending.len() > 0 {
                    DeliveryView::Envelope(pending[0])
                } else {
                    DeliveryView::Empty
                },
                Inbox::Lagging => DeliveryView::Lagged,
                Inbox::Closed => DeliveryView::Closed,
            }
        }
    }

    /// The bus after a receive by `id`: the envelope handed out, if any, is
    /// no longer pending.
    pub open spec fn receive(self, id: int) -> BusView {
        if self.is_open(id) && self.pending(id).len() > 0 {
            BusView {
                inboxes: self.inboxes.update(id, Inbox::Open { pending: self.pending(id).drop_first() }),
                ..self
            }
        } else {
            self
        }
    }

    /// The bus after `id` unsubscribes.
    pub open spec fn unsubscribe(self, id: int) -> BusView {
        if self.has(id) {
            BusView { inboxes: self.inboxes.update(id, Inbox::Closed), ..self }
        } else {
            self
        }
    }
}

/// One step taken on a bus.
pub enum BusOp {
    /// One more subscriber.
    Subscribe,
    /// One envelope published.
    Publish(EnvelopeView),
    /// One receive by the subscriber named.
    Receive(int),
    /// The subscriber named unsubscribes.
    Unsubscribe(int),
}

impl BusView {
    /// The bus after one step.
    pub open spec fn step(self, op: BusOp) -> BusView {
        match op {
            BusOp::Subscribe => self.subscribe(),
            BusOp::Publish(e) => self.publish(e),
            BusOp::Receive(id) => self.receive(id),
            BusOp::Unsubscribe(id) => self.unsubscribe(id),
        }
    }

    /// The bus after the steps `ops`, taken in order.
    pub open spec fn run(self, ops: Seq<BusOp>) -> BusView
        decreases ops.len(),
    {
        if ops.len() == 0 {
            self
        } else {
            self.step(ops[0]).run(ops.drop_first())
        }
    }

    /// The envelopes that the receives by `id` among `ops` hand out, in order.
    pub open spec fn received(self, ops: Seq<BusOp>, id: int) -> Seq<EnvelopeView>
        decreases ops.len(),
    {
        if ops.len() == 0 {
            Seq::empty()
        } else {
            let later = self.step(ops[0]).received(ops.drop_first(), id);
            match (ops[0], self.delivery(id)) {
                (BusOp::Receive(who), DeliveryView::Envelope(e)) => if who == id {
                    seq![e] + later
                } else {
                    later
                },
                _ => later,
            }
        }
    }
}

/// The envelopes published among `ops`, in order.
pub open spec fn published(ops: Seq<BusOp>) -> Seq<EnvelopeView>
    decreases ops.len(),
{
    if ops.len() == 0 {
        Seq::empty()
    } else {
        match ops[0] {
            BusOp::Publish(e) => seq![e] + published(ops.drop_first()),
            _ => published(ops.drop_first()),
        }
    }
}

/// Every step keeps a well-formed bus well-formed, keeps its capacity and
/// takes no subscriber id back.
pub proof fn lemma_step_keeps_wf(bus: BusView, op: BusOp)
    requires
        bus.wf(),
    ensures
        bus.step(op).wf(),
        bus.step(op).capacity == bus.capacity,
        bus.step(op).inboxes.len() >= bus.inboxes.len(),
{
    let next = bus.step(op);
    assert forall|id: int| 0 <= id < next.inboxes.len() implies (#[trigger] next.inboxes[id]).within(
        next.capacity,
    ) by {
        if id < bus.inboxes.len() {
            assert(bus.inboxes[id].within(bus.capacity));
        }
    }
}

/// A subscriber that is lagging or has unsubscribed never becomes open again.
pub proof fn lemma_never_reopened(bus: BusView, ops: Seq<BusOp>, id: int)
    requires
        bus.has(id),
        !bus.is_open(id),
    ensures
        !bus.run(ops).is_open(id),
    decreases ops.len(),
{
    if ops.len() > 0 {
        lemma_never_reopened(bus.step(ops[0]), ops.drop_first(), id);
    }
}

/// Whatever steps are taken on a bus, by whomever and in whatever order: a
/// subscriber that is open before them and open after them has been handed,
/// in publish order and without a gap or a repeat, what it had pending and
/// what was published meanwhile, up to what it has still pending.
pub proof fn lemma_open_subscriber_misses_nothing(bus: BusView, ops: Seq<BusOp>, id: int)
    requires
        bus.is_open(id),
        bus.run(ops).is_open(id),
    ensures
        bus.pending(id) + published(ops) == bus.received(ops, id) + bus.run(ops).pending(id),
    decreases ops.len(),
{
    if ops.len() == 0 {
        assert(bus.pending(id) + published(ops) =~= bus.received(ops, id) + bus.run(ops).pending(id));
    } else {
        let op = ops[0];
        let rest = ops.drop_first();
        let next = bus.step(op);
        if !next.is_open(id) {
            lemma_never_reopened(next, rest, id);
        }
        lemma_open_subscriber_misses_nothing(next, rest, id);
        let end = bus.run(ops).pending(id);
        match op {
            BusOp::Publish(e) => {
                assert(next.pending(id) == bus.pending(id).push(e));
                assert(bus.pending(id) + (seq![e] + published(rest)) =~= bus.pending(id).push(e)
                    + published(rest));
            },
            BusOp::Receive(who) => {
                if who == id && bus.pending(id).len() > 0 {
                    let e = bus.pending(id)[0];
                    assert(next.pending(id) == bus.pending(id).drop_first());
                    assert(bus.pending(id) + published(rest) =~= seq![e] + (bus.pending(id).drop_first()
                        + published(rest)));
                    assert((seq![e] + next.received(rest, id)) + end =~= seq![e] + (next.received(
                        rest,
                        id,
                    ) + end));
                } else {
                    assert(next.pending(id) == bus.pending(id));
                }
            },
            BusOp::Subscribe => {
                assert(next.pending(id) == bus.pending(id));
            },
            BusOp::Unsubscribe(who) => {
                assert(next.pending(id) == bus.pending(id));
            },
        }
    }
}

/// What a receive hands to the subscriber.
#[derive(Debug, PartialEq, Eq)]
pub enum Delivery {
    /// The oldest pending envelope.
    Envelope(Envelope),
    /// Nothing is pending.
    Empty,
    /// The subscriber is lagging.
    Lagged,
    /// The subscriber has unsubscribed, or never subscribed.
    Closed,
}

impl View for Delivery {
    type V = DeliveryView;

    open spec fn view(&self) -> DeliveryView {
        match self {
            Delivery::Envelope(e) => DeliveryView::Envelope(e@),
            Delivery::Empty => DeliveryView::Empty,
            Delivery::Lagged => DeliveryView::Lagged,
            Delivery::Closed => DeliveryView::Closed,
        }
    }
}

#[derive(Clone, Copy)]
struct Subscriber {
    id: usize,
    lagging: bool,
    /// How many of the newest envelopes of the backlog are pending.
    behind: usize,
}

/// The fan-out bus of one room. The envelopes published last, at most
/// `capacity` of them, are kept once for all subscribers; each subscriber
/// knows how many of the newest it has still to receive. Only the subscribers
/// that have not unsubscribed are kept, by ascending id.
pub struct Bus {
    capacity: usize,
    backlog: Vec<Envelope>,
    subscribers: Vec<Subscriber>,
    /// How many ids have been handed out.
    issued: usize,
}

/// The envelopes of a backlog as mathematical values.
pub open spec fn envelope_views(backlog: Seq<Envelope>) -> Seq<EnvelopeView> {
    backlog.map_values(|e: Envelope| e@)
}

/// The ids go up from each subscriber to the next.
spec fn ascending(subscribers: Seq<Subscriber>) -> bool {
    forall|j: int, k: int|
        0 <= j < k < subscribers.len() ==> (#[trigger] subscribers[j]).id < (#[trigger] subscribers[k]).id
}

/// Where the subscriber `id` is kept, if it is.
spec fn position(subscribers: Seq<Subscriber>, id: int) -> Option<int> {
    if exists|k: int| 0 <= k < subscribers.len() && (#[trigger] subscribers[k]).id == id {
        Some(choose|k: int| 0 <= k < subscribers.len() && (#[trigger] subscribers[k]).id == id)
    } else {
        None
    }
}

/// Among ascending ids a subscriber is kept where its id is found.
proof fn lemma_position(subscribers: Seq<Subscriber>, k: int)
    requires
        ascending(subscribers),
        0 <= k < subscribers.len(),
    ensures
        position(subscribers, subscribers[k].id as int) == Some(k),
{
    let id = subscribers[k].id as int;
    let found = choose|j: int| 0 <= j < subscribers.len() && (#[trigger] subscribers[j]).id == id;
    if found < k {
        assert(subscribers[found].id < subscribers[k].id);
    }
    if k < found {
        assert(subscribers[k].id < subscribers[found].id);
    }
}

impl Bus {
    spec fn newest(&self, behind: usize) -> Seq<EnvelopeView> {
        let kept = envelope_views(self.backlog@);
        kept.subrange(kept.len() - behind, kept.len() as int)
    }

    spec fn inbox_at(&self, k: int) -> Inbox {
        if self.subscribers[k].lagging {
            Inbox::Lagging
        } else {
            Inbox::Open { pending: self.newest(self.subscribers[k].behind) }
        }
    }

    spec fn inbox(&self, id: int) -> Inbox {
        match position(self.subscribers@, id) {
            Some(k) => self.inbox_at(k),
            None => Inbox::Closed,
        }
    }

    /// The representation is consistent: the backlog is within the capacity,
    /// the subscribers are kept by ascending id, every id kept has been
    /// handed out, and no open subscriber is further behind than the backlog
    /// is long.
    pub closed spec fn wf(&self) -> bool {
        &&& self.capacity > 0
        &&& self.backlog.len() <= self.capacity
        &&& ascending(self.subscribers@)
        &&& forall|k: int| 0 <= k < self.subscribers.len() ==> (#[trigger] self.subscribers[k]).id < self.issued
        &&& forall|k: int|
            0 <= k < self.subscribers.len() && !(#[trigger] self.subscribers[k]).lagging
                ==> self.subscribers[k].behind <= self.backlog.len()
    }

    /// A well-formed bus has a well-formed view.
    pub proof fn lemma_view_wf(&self)
        requires
            self.wf(),
        ensures
            self@.wf(),
    {
        assert forall|id: int| 0 <= id < self@.inboxes.len() implies (#[trigger] self@.inboxes[id]).within(
            self@.capacity,
        ) by {
            assert(self@.inboxes[id] == self.inbox(id));
            if let Some(k) = position(self.subscribers@, id) {
                assert(!self.subscribers[k].lagging ==> self.subscribers[k].behind <= self.backlog.len());
            }
        }
    }

    /// Subscribers that agree with those of `before` on every id, in a bus
    /// that agrees with `before` on everything else, are found where they
    /// were.
    proof fn lemma_same_ids(&self, before: Bus, id: int)
        requires
            before.wf(),
            self.subscribers.len() == before.subscribers.len(),
            forall|k: int|
                0 <= k < self.subscribers.len() ==> (#[trigger] self.subscribers[k]).id
                    == before.subscribers[k].id,
        ensures
            position(self.subscribers@, id) == position(before.subscribers@, id),
            ascending(self.subscribers@),
    {
        assert forall|j: int, k: int| 0 <= j < k < self.subscribers.len() implies (
        #[trigger] self.subscribers@[j]).id < (#[trigger] self.subscribers@[k]).id by {
            assert(before.subscribers@[j].id < before.subscribers@[k].id);
        }
        match position(before.subscribers@, id) {
            Some(k) => {
                assert(self.subscribers@[k].id == id);
                lemma_position(self.subscribers@, k);
            },
            None => {
                if let Some(k) = position(self.subscribers@, id) {
                    assert(before.subscribers@[k].id == id);
                }
            },
        }
    }
}

impl View for Bus {
    type V = BusView;

    closed spec fn view(&self) -> BusView {
        BusView { capacity: self.capacity as nat, inboxes: Seq::new(self.issued as nat, |id: int| self.inbox(id)) }
    }
}

impl Bus {
    /// A bus without subscribers that keeps up to `capacity` envelopes
    /// pending for each subscriber.
    pub fn new(capacity: usize) -> (bus: Bus)
        requires
            capacity > 0,
        ensures
            bus.wf(),
            bus@ == BusView::fresh(capacity as nat),
    {
        let bus = Bus { capacity, backlog: Vec::new(), subscribers: Vec::new(), issued: 0 };
        assert(bus@.inboxes =~= Seq::empty());
        bus
    }

    /// Where the subscriber `id` is kept.
    fn find(&self, id: usize) -> (found: Option<usize>)
        requires
            self.wf(),
        ensures
            match found {
                Some(k) => k < self.subscribers.len() && self.subscribers[k as int].id == id && position(
                    self.subscribers@,
                    id as int,
                ) == Some(k as int),
                None => position(self.subscribers@, id as int) is None,
            },
    {
        let mut low: usize = 0;
        let mut high: usize = self.subscribers.len();
        while low < high
            invariant
                low <= high <= self.subscribers.len(),
                ascending(self.subscribers@),
                forall|k: int| 0 <= k < low ==> (#[trigger] self.subscribers[k]).id < id,
                forall|k: int| high <= k < self.subscribers.len() ==> (#[trigger] self.subscribers[k]).id > id,
            decreases high - low,
        {
            let middle: usize = low + (high - low) / 2;
            let at: usize = self.subscribers[middle].id;
            if at == id {
                proof {
                    lemma_position(self.subscribers@, middle as int);
                }
                return Some(middle);
            }
            if at < id {
                assert forall|k: int| 0 <= k < middle + 1 implies (#[trigger] self.subscribers[k]).id < id by {
                    if k < middle {
                        assert(self.subscribers@[k].id < self.subscribers@[middle as int].id);
                    }
                }
                low = middle + 1;
            } else {
                assert forall|k: int| middle <= k < self.subscribers.len() implies (
                #[trigger] self.subscribers[k]).id > id by {
                    if middle < k {
                        assert(self.subscribers@[middle as int].id < self.subscribers@[k].id);
                    }
                }
                high = middle;
            }
        }
        None
    }

    /// Adds a subscriber with nothing pending and returns its id. Ids count
    /// up from zero and are never handed out twice. Once every id that a
    /// `usize` holds is taken, the id returned is one that is closed.
    pub fn subscribe(&mut self) -> (id: usize)
        requires
            old(self).wf(),
        ensures
            final(self).wf(),
            final(self)@ == old(self)@.subscribe(),
            id == old(self)@.inboxes.len(),
    {
        let id = self.issued;
        if id == usize::MAX {
            return id;
        }
        self.subscribers.push(Subscriber { id, lagging: false, behind: 0 });
        self.issued = id + 1;
        proof {
            let last = old(self).subscribers.len() as int;
            assert(self.newest(0) =~= Seq::empty());
            assert forall|j: int, k: int| 0 <= j < k < self.subscribers.len() implies (
            #[trigger] self.subscribers@[j]).id < (#[trigger] self.subscribers@[k]).id by {
                if k < last {
                    assert(old(self).subscribers@[j].id < old(self).subscribers@[k].id);
                } else {
                    assert(old(self).subscribers[j].id < old(self).issued);
                }
            }
            lemma_position(self.subscribers@, last);
            assert forall|other: int| 0 <= other < id implies self.inbox(other) == old(self).inbox(other) by {
                match position(old(self).subscribers@, other) {
                    Some(k) => {
                        assert(self.subscribers@[k] == old(self).subscribers@[k]);
                        lemma_position(self.subscribers@, k);
                    },
                    None => {
                        if let Some(k) = position(self.subscribers@, other) {
                            if k < last {
                                assert(old(self).subscribers@[k].id == other);
                            }
                        }
                    },
                }
            }
            assert(self@.inboxes =~= old(self)@.subscribe().inboxes);
        }
        id
    }

    /// Publishes `e` to every open subscriber. A subscriber that already has
    /// `capacity` envelopes pending becomes lagging instead.
    pub fn publish(&mut self, e: Envelope)
        requires
            old(self).wf(),
        ensures
            final(self).wf(),
            final(self)@ == old(self)@.publish(e@),
    {
        let ghost before = *self;
        let ghost published = e@;
        if self.backlog.len() == self.capacity {
            self.backlog.remove(0);
        }
        self.backlog.push(e);
        let ghost kept = envelope_views(self.backlog@);
        let ghost kept_before = envelope_views(before.backlog@);
        proof {
            if before.backlog.len() == before.capacity {
                assert(kept =~= kept_before.remove(0).push(published));
            } else {
                assert(kept =~= kept_before.push(published));
            }
        }
        let mut k: usize = 0;
        while k < self.subscribers.len()
            invariant
                k <= self.subscribers.len(),
                before.wf(),
                self.capacity == before.capacity,
                self.issued == before.issued,
                self.subscribers.len() == before.subscribers.len(),
                self.backlog.len() <= self.capacity,
                kept == envelope_views(self.backlog@),
                kept_before == envelope_views(before.backlog@),
                kept_before.len() == before.capacity ==> kept == kept_before.remove(0).push(published),
                kept_before.len() != before.capacity ==> kept == kept_before.push(published),
                forall|any: int|
                    0 <= any < self.subscribers.len() ==> (#[trigger] self.subscribers[any]).id
                        == before.subscribers[any].id,
                forall|done: int|
                    0 <= done < k ==> #[trigger] self.inbox_at(done) == before.inbox_at(done).accept(
                        published,
                        before.capacity as nat,
                    ),
                forall|done: int|
                    0 <= done < k && !(#[trigger] self.subscribers[done]).lagging
                        ==> self.subscribers[done].behind <= self.backlog.len(),
                forall|todo: int|
                    k <= todo < self.subscribers.len() ==> #[trigger] self.subscribers[todo]
                        == before.subscribers[todo],
            decreases self.subscribers.len() - k,
        {
            let subscriber = self.subscribers[k];
            let ghost earlier = *self;
            if !subscriber.lagging {
                assert(!before.subscribers[k as int].lagging);
                if subscriber.behind == self.capacity {
                    self.subscribers.set(k, Subscriber { id: subscriber.id, lagging: true, behind: 0 });
                    assert(before.newest(subscriber.behind).len() == before.capacity);
                } else {
                    let behind: usize = subscriber.behind + 1;
                    self.subscribers.set(k, Subscriber { id: subscriber.id, lagging: false, behind });
                    assert(self.newest(behind) =~= before.newest(subscriber.behind).push(published));
                }
            }
            proof {
                assert(self.inbox_at(k as int) == before.inbox_at(k as int).accept(
                    published,
                    before.capacity as nat,
                ));
                assert forall|done: int| 0 <= done < k implies #[trigger] self.inbox_at(done)
                    == before.inbox_at(done).accept(published, before.capacity as nat) by {
                    assert(self.subscribers[done] == earlier.subscribers[done]);
                    assert(earlier.inbox_at(done) == before.inbox_at(done).accept(
                        published,
                        before.capacity as nat,
                    ));
                }
            }
            k = k + 1;
        }
        proof {
            assert forall|id: int| 0 <= id < self.issued implies #[trigger] self@.inboxes[id]
                == before@.publish(published).inboxes[id] by {
                self.lemma_same_ids(before, id);
                assert(before@.inboxes[id] == before.inbox(id));
                if let Some(at) = position(before.subscribers@, id) {
                    assert(self.inbox_at(at) == before.inbox_at(at).accept(published, before.capacity as nat));
                }
            }
            self.lemma_same_ids(before, 0);
            assert(self@.inboxes =~= before@.publish(published).inboxes);
        }
    }

    /// Hands `id` its oldest pending envelope, if it is open and has one.
    pub fn receive(&mut self, id: usize) -> (delivery: Delivery)
        requires
            old(self).wf(),
        ensures
            final(self).wf(),
            final(self)@ == old(self)@.receive(id as int),
            delivery@ == old(self)@.delivery(id as int),
    {
        let k = match self.find(id) {
            Some(k) => k,
            None => {
                assert(id < self.issued ==> self@.inboxes[id as int] == self.inbox(id as int));
                return Delivery::Closed;
            },
        };
        let subscriber = self.subscribers[k];
        assert(self@.inboxes[id as int] == self.inbox(id as int));
        if subscriber.lagging {
            return Delivery::Lagged;
        }
        if subscriber.behind == 0 {
            return Delivery::Empty;
        }
        let oldest: usize = self.backlog.len() - subscriber.behind;
        let envelope = self.backlog[oldest].clone();
        let behind: usize = subscriber.behind - 1;
        self.subscribers.set(k, Subscriber { id, lagging: false, behind });
        proof {
            let pending = old(self).newest(subscriber.behind);
            assert(pending[0] == old(self).backlog@[oldest as int]@);
            assert(self.newest(behind) =~= pending.drop_first());
            assert forall|other: int| 0 <= other < self.issued implies #[trigger] self@.inboxes[other] == old(
                self,
            )@.receive(id as int).inboxes[other] by {
                self.lemma_same_ids(*old(self), other);
                assert(old(self)@.inboxes[other] == old(self).inbox(other));
                if let Some(at) = position(old(self).subscribers@, other) {
                    if at != k {
                        assert(self.subscribers[at] == old(self).subscribers[at]);
                    }
                }
            }
            self.lemma_same_ids(*old(self), 0);
            assert(self@.inboxes =~= old(self)@.receive(id as int).inboxes);
        }
        Delivery::Envelope(envelope)
    }

    /// Ends the subscription `id`. Its id stays taken.
    pub fn unsubscribe(&mut self, id: usize)
        requires
            old(self).wf(),
        ensures
            final(self).wf(),
            final(self)@ == old(self)@.unsubscribe(id as int),
    {
        match self.find(id) {
            None => {
                assert(self@.inboxes =~= old(self)@.unsubscribe(id as int).inboxes);
            },
            Some(k) => {
                self.subscribers.remove(k);
                proof {
                    let was = old(self).subscribers@;
                    let now = self.subscribers@;
                    assert forall|i: int, j: int| 0 <= i < j < now.len() implies (#[trigger] now[i]).id < (
                    #[trigger] now[j]).id by {
                        let from_i = if i < k { i } else { i + 1 };
                        let from_j = if j < k { j } else { j + 1 };
                        assert(was[from_i].id < was[from_j].id);
                    }
                    assert forall|i: int| 0 <= i < now.len() implies (#[trigger] self.subscribers[i]).id
                        < self.issued && (!self.subscribers[i].lagging ==> self.subscribers[i].behind
                        <= self.backlog.len()) by {
                        let from = if i < k { i } else { i + 1 };
                        assert(now[i] == was[from]);
                        assert(old(self).subscribers[from].id < old(self).issued);
                    }
                    assert forall|other: int| 0 <= other < self.issued implies #[trigger] self@.inboxes[other]
                        == old(self)@.unsubscribe(id as int).inboxes[other] by {
                        assert(old(self)@.inboxes[other] == old(self).inbox(other));
                        match position(was, other) {
                            Some(at) => {
                                if at == k {
                                    if let Some(still) = position(now, other) {
                                        let from = if still < k { still } else { still + 1 };
                                        assert(now[still] == was[from]);
                                        lemma_position(was, from);
                                    }
                                } else {
                                    let to = if at < k { at } else { at - 1 };
                                    assert(now[to] == was[at]);
                                    lemma_position(now, to);
                                    lemma_position(was, k as int);
                                }
                            },
                            None => {
                                if let Some(still) = position(now, other) {
                                    let from = if still < k { still } else { still + 1 };
                                    assert(now[still] == was[from]);
                                    assert(was[from].id == other);
                                }
                            },
                        }
                    }
                    assert(self@.inboxes =~= old(self)@.unsubscribe(id as int).inboxes);
                }
            },
        }
    }
}

} // verus!
