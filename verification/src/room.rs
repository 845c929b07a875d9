//! One room: a name, the presence set of the display names joined, and the
//! bus that fans envelopes out to the room's subscribers.
//!
//! Presence is changed outside the bus: a join or a leave first changes the
//! presence set and then publishes a notice and a snapshot of the set as it
//! then is.

use crate::bus::{Bus, BusView, Delivery, BACKLOG_CAPACITY};
use crate::codec::{encode_names, encoded_names};
use crate::envelope::{join_notice, leave_notice, presence_snapshot, Envelope, EnvelopeView};
use crate::presence::{is_roster, PresenceSet};
use vstd::prelude::*;

verus! {

/// The mathematical value of a [`RoomChannel`].
pub struct RoomView {
    pub name: Seq<char>,
    pub members: Set<Seq<char>>,
    pub bus: BusView,
}

impl RoomView {
    /// The room `name` as it is created: nobody present, nobody subscribed.
    pub open spec fn fresh(name: Seq<char>) -> RoomView {
        RoomView { name, members: Set::empty(), bus: BusView::fresh(BACKLOG_CAPACITY as nat) }
    }

    /// The room's bus is well-formed.
    pub open spec fn wf(self) -> bool {
        self.bus.wf()
    }

    /// The room after one more subscription.
    pub open spec fn subscribe(self) -> RoomView {
        RoomView { bus: self.bus.subscribe(), ..self }
    }

    /// The room after `e` is published in it.
    pub open spec fn publish(self, e: EnvelopeView) -> RoomView {
        RoomView { bus: self.bus.publish(e), ..self }
    }

    /// The room after a receive by the subscriber `id`.
    pub open spec fn receive(self, id: int) -> RoomView {
        RoomView { bus: self.bus.receive(id), ..self }
    }

    /// The room after the subscriber `id` unsubscribes.
    pub open spec fn unsubscribe(self, id: int) -> RoomView {
        RoomView { bus: self.bus.unsubscribe(id), ..self }
    }

    /// The room with `name` present.
    pub open spec fn enter(self, name: Seq<char>) -> RoomView {
        RoomView { members: self.members.insert(name), ..self }
    }

    /// The room with `name` absent.
    pub open spec fn leave(self, name: Seq<char>) -> RoomView {
        RoomView { members: self.members.remove(name), ..self }
    }

    /// The snapshot that announces `roster` as the room's members.
    pub open spec fn snapshot(self, roster: Seq<Seq<char>>) -> EnvelopeView {
        presence_snapshot(encoded_names(roster), self.name)
    }

    /// The room after a session joins it as `name`: the session subscribes,
    /// the name is present, the join notice is published, and then the
    /// snapshot that lists `roster`. The session subscribes first, so it is
    /// handed both itself.
    pub open spec fn join(self, name: Seq<char>, roster: Seq<Seq<char>>) -> RoomView {
        self.subscribe().enter(name).publish(join_notice(name, self.name)).publish(self.snapshot(roster))
    }

    /// The room after the session with the subscription `id` and the name
    /// `name` leaves it: the subscription ends, the name is absent, the leave
    /// notice is published, and then the snapshot that lists `roster`.
    pub open spec fn part(self, id: int, name: Seq<char>, roster: Seq<Seq<char>>) -> RoomView {
        self.unsubscribe(id).leave(name).publish(leave_notice(name, self.name)).publish(
            self.snapshot(roster),
        )
    }
}

/// A join is announced to everyone who keeps up: a subscriber that is open and
/// has room for two more envelopes, and the joining session itself where the
/// capacity is two or more, is handed the join notice and then a snapshot
/// whose roster lists the name that joined. (The room has a subscriber id
/// left to hand out.)
pub proof fn lemma_join_is_announced(room: RoomView, name: Seq<char>, roster: Seq<Seq<char>>, watcher: int)
    requires
        is_roster(roster, room.members.insert(name)),
        room.bus.capacity >= 2,
        room.bus.inboxes.len() < usize::MAX,
        watcher == room.bus.inboxes.len() || (room.bus.is_open(watcher) && room.bus.pending(watcher).len() + 2
            <= room.bus.capacity),
    ensures
        roster.contains(name),
        room.join(name, roster).members == room.members.insert(name),
        room.join(name, roster).bus.is_open(watcher),
        room.join(name, roster).bus.pending(watcher) == room.bus.pending(watcher).push(
            join_notice(name, room.name),
        ).push(room.snapshot(roster)),
{
    let subscribed = room.subscribe().enter(name);
    let noticed = subscribed.publish(join_notice(name, room.name));
    assert(subscribed.bus.is_open(watcher));
    assert(subscribed.bus.pending(watcher) =~= room.bus.pending(watcher));
    assert(noticed.bus.pending(watcher) == room.bus.pending(watcher).push(join_notice(name, room.name)));
}

/// A leave is announced to everyone who keeps up: a subscriber other than the
/// one leaving that is open and has room for two more envelopes is handed the
/// leave notice and then a snapshot whose roster does not list the name that
/// left. The subscription of the session that left is closed.
pub proof fn lemma_part_is_announced(
    room: RoomView,
    id: int,
    name: Seq<char>,
    roster: Seq<Seq<char>>,
    watcher: int,
)
    requires
        is_roster(roster, room.members.remove(name)),
        watcher != id,
        room.bus.is_open(watcher),
        room.bus.pending(watcher).len() + 2 <= room.bus.capacity,
    ensures
        !roster.contains(name),
        room.part(id, name, roster).members == room.members.remove(name),
        !room.part(id, name, roster).bus.is_open(id),
        room.part(id, name, roster).bus.is_open(watcher),
        room.part(id, name, roster).bus.pending(watcher) == room.bus.pending(watcher).push(
            leave_notice(name, room.name),
        ).push(room.snapshot(roster)),
{
    let gone = room.unsubscribe(id).leave(name);
    let noticed = gone.publish(leave_notice(name, room.name));
    assert(gone.bus.is_open(watcher));
    assert(gone.bus.pending(watcher) == room.bus.pending(watcher));
    assert(noticed.bus.pending(watcher) == room.bus.pending(watcher).push(leave_notice(name, room.name)));
}

/// One room of the relay.
pub struct RoomChannel {
    name: String,
    presence: PresenceSet,
    bus: Bus,
}

impl View for RoomChannel {
    type V = RoomView;

    closed spec fn view(&self) -> RoomView {
        RoomView { name: self.name@, members: self.presence@, bus: self.bus@ }
    }
}

impl RoomChannel {
    /// The room's bus is consistent.
    pub closed spec fn wf(&self) -> bool {
        self.bus.wf()
    }

    /// A well-formed room has a well-formed view.
    pub proof fn lemma_view_wf(&self)
        requires
            self.wf(),
        ensures
            self@.wf(),
    {
        self.bus.lemma_view_wf();
    }

    /// A new room: nobody present, nobody subscribed, and a backlog of
    /// [`BACKLOG_CAPACITY`] envelopes for each subscriber to come.
    pub fn new(name: &str) -> (room: RoomChannel)
        ensures
            room.wf(),
            room@ == RoomView::fresh(name@),
    {
        RoomChannel { name: name.to_owned(), presence: PresenceSet::new(), bus: Bus::new(BACKLOG_CAPACITY) }
    }

    /// The room's name.
    pub fn name(&self) -> (name: &str)
        ensures
            name@ == self@.name,
    {
        self.name.as_str()
    }

    /// Subscribes to the room and returns the id to receive with. The
    /// subscriber is handed what is published from now on.
    pub fn subscribe(&mut self) -> (id: usize)
        requires
            old(self).wf(),
        ensures
            final(self).wf(),
            final(self)@ == old(self)@.subscribe(),
            id == old(self)@.bus.inboxes.len(),
    {
        self.bus.subscribe()
    }

    /// Publishes `e` to every subscriber that is open.
    pub fn publish(&mut self, e: Envelope)
        requires
            old(self).wf(),
        ensures
            final(self).wf(),
            final(self)@ == old(self)@.publish(e@),
    {
        self.bus.publish(e)
    }

    /// Hands the subscriber `id` its oldest pending envelope.
    pub fn receive(&mut self, id: usize) -> (delivery: Delivery)
        requires
            old(self).wf(),
        ensures
            final(self).wf(),
            final(self)@ == old(self)@.receive(id as int),
            delivery@ == old(self)@.bus.delivery(id as int),
    {
        self.bus.receive(id)
    }

    /// Ends the subscription `id`.
    pub fn unsubscribe(&mut self, id: usize)
        requires
            old(self).wf(),
        ensures
            final(self).wf(),
            final(self)@ == old(self)@.unsubscribe(id as int),
    {
        self.bus.unsubscribe(id)
    }

    /// Marks `name` as present, without announcing it.
    pub fn enter(&mut self, name: &str)
        requires
            old(self).wf(),
        ensures
            final(self).wf(),
            final(self)@ == old(self)@.enter(name@),
    {
        self.presence.insert(name)
    }

    /// Marks `name` as absent, without announcing it.
    pub fn leave(&mut self, name: &str)
        requires
            old(self).wf(),
        ensures
            final(self).wf(),
            final(self)@ == old(self)@.leave(name@),
    {
        self.presence.remove(name)
    }

    /// The display names present, each once, in no particular order.
    pub fn roster(&self) -> (names: Vec<String>)
        ensures
            is_roster(names.deep_view(), self@.members),
    {
        self.presence.roster()
    }

    /// Publishes a snapshot of the presence set and returns the roster that
    /// it lists.
    pub fn announce_presence(&mut self) -> (roster: Vec<String>)
        requires
            old(self).wf(),
        ensures
            final(self).wf(),
            is_roster(roster.deep_view(), old(self)@.members),
            final(self)@ == old(self)@.publish(old(self)@.snapshot(roster.deep_view())),
    {
        let roster = self.presence.roster();
        let listing = encode_names(&roster);
        self.bus.publish(Envelope::snapshot(listing, self.name.as_str()));
        roster
    }

    /// Lets a session join as `name`: subscribes it, marks the name present,
    /// publishes the join notice and then a snapshot of the presence set.
    /// Returns the session's subscription and the roster that the snapshot
    /// lists.
    pub fn join(&mut self, name: &str) -> (joined: (usize, Vec<String>))
        requires
            old(self).wf(),
        ensures
            final(self).wf(),
            joined.0 == old(self)@.bus.inboxes.len(),
            is_roster(joined.1.deep_view(), old(self)@.members.insert(name@)),
            final(self)@ == old(self)@.join(name@, joined.1.deep_view()),
    {
        let id = self.bus.subscribe();
        self.presence.insert(name);
        self.bus.publish(Envelope::joined(name, self.name.as_str()));
        let roster = self.announce_presence();
        (id, roster)
    }

    /// Lets the session with the subscription `id` and the name `name` leave:
    /// ends the subscription, marks the name absent, publishes the leave
    /// notice and then a snapshot of the presence set. Returns the roster that
    /// the snapshot lists.
    pub fn part(&mut self, id: usize, name: &str) -> (roster: Vec<String>)
        requires
            old(self).wf(),
        ensures
            final(self).wf(),
            is_roster(roster.deep_view(), old(self)@.members.remove(name@)),
            final(self)@ == old(self)@.part(id as int, name@, roster.deep_view()),
    {
        self.bus.unsubscribe(id);
        self.presence.remove(name);
        self.bus.publish(Envelope::left(name, self.name.as_str()));
        self.announce_presence()
    }
}

} // verus!
