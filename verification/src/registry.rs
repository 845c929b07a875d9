//! The registry of rooms.
//!
//! A room comes into being the first time its name is resolved and stays for
//! good, also when nobody is in it. Rooms live in an arena in the order of
//! their creation; a room's position there, its slot, is the handle that a
//! session keeps. An index from name to slot makes resolving a name one
//! get-or-create step.

use crate::bus::{Delivery, DeliveryView};
use crate::envelope::{Envelope, EnvelopeView};
use crate::index::{index_entries, index_new, index_or_insert};
use crate::presence::is_roster;
use crate::room::{RoomChannel, RoomView};
use dashmap::DashMap;
use vstd::prelude::*;

verus! {

/// The mathematical value of a [`Registry`]: its rooms in the order of their
/// creation.
pub struct RegistryView {
    pub rooms: Seq<RoomView>,
}

impl RegistryView {
    /// Every room is well-formed and has a name that is not empty, and no two
    /// rooms have one name.
    pub open spec fn wf(self) -> bool {
        &&& forall|slot: int|
            0 <= slot < self.rooms.len() ==> (#[trigger] self.rooms[slot]).wf() && self.rooms[slot].name.len()
                > 0
        &&& forall|a: int, b: int|
            0 <= a < b < self.rooms.len() ==> (#[trigger] self.rooms[a]).name != (#[trigger] self.rooms[b]).name
    }

    /// The registry without rooms.
    pub open spec fn empty() -> RegistryView {
        RegistryView { rooms: Seq::empty() }
    }

    /// `slot` is the slot of a room.
    pub open spec fn has(self, slot: int) -> bool {
        0 <= slot < self.rooms.len()
    }

    /// There is a room called `name`.
    pub open spec fn has_room(self, name: Seq<char>) -> bool {
        exists|slot: int| 0 <= slot < self.rooms.len() && (#[trigger] self.rooms[slot]).name == name
    }

    /// The slot of the room called `name`; where there is none, the slot that
    /// the next room to be created gets.
    pub open spec fn slot_of(self, name: Seq<char>) -> int {
        if self.has_room(name) {
            choose|slot: int| 0 <= slot < self.rooms.len() && (#[trigger] self.rooms[slot]).name == name
        } else {
            self.rooms.len() as int
        }
    }

    /// The registry after `name` is resolved: as it was where the room
    /// exists, and with one new room at the end where it does not.
    pub open spec fn resolve(self, name: Seq<char>) -> RegistryView {
        if self.has_room(name) {
            self
        } else {
            RegistryView { rooms: self.rooms.push(RoomView::fresh(name)) }
        }
    }

    /// The names of the rooms, in the order of their creation.
    pub open spec fn names(self) -> Seq<Seq<char>> {
        self.rooms.map_values(|room: RoomView| room.name)
    }

    /// The registry with `room` in the place of the room at `slot`; the
    /// registry itself where there is no such slot.
    pub open spec fn with_room(self, slot: int, room: RoomView) -> RegistryView {
        if self.has(slot) {
            RegistryView { rooms: self.rooms.update(slot, room) }
        } else {
            self
        }
    }

    /// The registry after `e` is published in the room at `slot`.
    pub open spec fn publish(self, slot: int, e: EnvelopeView) -> RegistryView {
        self.with_room(slot, self.rooms[slot].publish(e))
    }

    /// The registry after the subscriber `id` of the room at `slot` receives.
    pub open spec fn receive(self, slot: int, id: int) -> RegistryView {
        self.with_room(slot, self.rooms[slot].receive(id))
    }

    /// What a receive by the subscriber `id` of the room at `slot` hands out.
    pub open spec fn delivery(self, slot: int, id: int) -> DeliveryView {
        if self.has(slot) {
            self.rooms[slot].bus.delivery(id)
        } else {
            DeliveryView::Closed
        }
    }

    /// The registry after a session joins the room at `slot` as `name` and
    /// the snapshot lists `roster`.
    pub open spec fn join(self, slot: int, name: Seq<char>, roster: Seq<Seq<char>>) -> RegistryView {
        self.with_room(slot, self.rooms[slot].join(name, roster))
    }

    /// The registry after the session with the subscription `id` and the name
    /// `name` leaves the room at `slot` and the snapshot lists `roster`.
    pub open spec fn part(self, slot: int, id: int, name: Seq<char>, roster: Seq<Seq<char>>) -> RegistryView {
        self.with_room(slot, self.rooms[slot].part(id, name, roster))
    }
}

/// Resolving a name again finds the room that the first resolve found or
/// created: the same slot comes back, and no second room is created, whatever
/// the registry held before.
pub proof fn lemma_resolve_again_finds_the_same_room(registry: RegistryView, name: Seq<char>)
    ensures
        registry.resolve(name).has_room(name),
        registry.resolve(name).slot_of(name) == registry.slot_of(name),
        registry.resolve(name).resolve(name) == registry.resolve(name),
        registry.resolve(name).rooms.len() <= registry.rooms.len() + 1,
        registry.resolve(name).rooms[registry.slot_of(name)].name == name,
{
    let resolved = registry.resolve(name);
    if !registry.has_room(name) {
        let last = registry.rooms.len() as int;
        assert(resolved.rooms[last].name == name);
        let found = resolved.slot_of(name);
        if found != last {
            assert(registry.rooms[found].name == name);
        }
    }
}

/// What happens in one room changes no other room, and neither adds nor
/// removes a room.
pub proof fn lemma_rooms_are_isolated(registry: RegistryView, slot: int, room: RoomView, other: int)
    requires
        registry.has(other),
        other != slot,
    ensures
        registry.with_room(slot, room).rooms.len() == registry.rooms.len(),
        registry.with_room(slot, room).rooms[other] == registry.rooms[other],
{
}

/// The rooms of an arena as mathematical values.
pub open spec fn room_views(rooms: Seq<RoomChannel>) -> Seq<RoomView> {
    rooms.map_values(|room: RoomChannel| room@)
}

/// The rooms of the relay by name.
pub struct Registry {
    index: DashMap<String, usize>,
    rooms: Vec<RoomChannel>,
}

impl View for Registry {
    type V = RegistryView;

    closed spec fn view(&self) -> RegistryView {
        RegistryView { rooms: room_views(self.rooms@) }
    }
}

impl Registry {
    /// The representation is consistent: every room is consistent and named,
    /// and the index holds each room's name with that room's slot and
    /// nothing else.
    pub closed spec fn wf(&self) -> bool {
        &&& forall|slot: int|
            0 <= slot < self.rooms.len() ==> (#[trigger] self.rooms[slot]).wf() && self.rooms[slot]@.name.len()
                > 0
        &&& forall|name: Seq<char>| #[trigger]
            index_entries(self.index).contains_key(name) ==> index_entries(self.index)[name]
                < self.rooms.len() && self.rooms[index_entries(self.index)[name] as int]@.name == name
        &&& forall|slot: int|
            0 <= slot < self.rooms.len() ==> index_entries(self.index).contains_key(
                (#[trigger] self.rooms[slot])@.name,
            ) && index_entries(self.index)[self.rooms[slot]@.name] == slot
    }

    /// A well-formed registry has a well-formed view.
    pub proof fn lemma_view_wf(&self)
        requires
            self.wf(),
        ensures
            self@.wf(),
    {
        assert forall|slot: int| 0 <= slot < self@.rooms.len() implies (#[trigger] self@.rooms[slot]).wf()
            && self@.rooms[slot].name.len() > 0 by {
            assert(self.rooms[slot].wf());
            self.rooms[slot].lemma_view_wf();
        }
        assert forall|a: int, b: int| 0 <= a < b < self@.rooms.len() implies (#[trigger] self@.rooms[a]).name
            != (#[trigger] self@.rooms[b]).name by {
            assert(index_entries(self.index)[self.rooms[a]@.name] == a);
            assert(index_entries(self.index)[self.rooms[b]@.name] == b);
        }
    }

    /// In a well-formed registry the index and the rooms agree on every name.
    proof fn lemma_index(&self, name: Seq<char>)
        requires
            self.wf(),
        ensures
            self@.has_room(name) == index_entries(self.index).contains_key(name),
            self@.has_room(name) ==> self@.slot_of(name) == index_entries(self.index)[name],
    {
        let entries = index_entries(self.index);
        if entries.contains_key(name) {
            let slot = entries[name] as int;
            assert(self@.rooms[slot].name == name);
        }
        if self@.has_room(name) {
            let slot = self@.slot_of(name);
            assert(self@.rooms[slot] == self.rooms[slot]@);
            assert(entries[self.rooms[slot]@.name] == slot);
        }
    }

    /// A registry without rooms.
    pub fn new() -> (registry: Registry)
        ensures
            registry.wf(),
            registry@ == RegistryView::empty(),
    {
        let registry = Registry { index: index_new(), rooms: Vec::new() };
        assert(registry@.rooms =~= Seq::empty());
        registry
    }

    /// The slot of the room called `name`, which is created if there is none
    /// yet. Resolving one name any number of times creates one room and
    /// returns one slot.
    pub fn resolve(&mut self, name: &str) -> (slot: usize)
        requires
            old(self).wf(),
            name@.len() > 0,
        ensures
            final(self).wf(),
            final(self)@ == old(self)@.resolve(name@),
            slot == old(self)@.slot_of(name@),
            final(self)@.has(slot as int),
            final(self)@.rooms[slot as int].name == name@,
    {
        proof {
            self.lemma_index(name@);
        }
        let next = self.rooms.len();
        let slot = index_or_insert(&mut self.index, name.to_owned(), next);
        if slot == next {
            self.rooms.push(RoomChannel::new(name));
            proof {
                assert(self@.rooms =~= old(self)@.rooms.push(RoomView::fresh(name@)));
                assert forall|other: int| 0 <= other < self.rooms.len() implies index_entries(
                    self.index,
                ).contains_key((#[trigger] self.rooms[other])@.name) && index_entries(
                    self.index,
                )[self.rooms[other]@.name] == other by {
                    if other < next {
                        assert(self.rooms[other] == old(self).rooms[other]);
                    }
                }
            }
        } else {
            assert(self@.rooms[slot as int] == self.rooms[slot as int]@);
        }
        slot
    }

    /// The names of all rooms, in the order of their creation. A room is
    /// listed whether or not anybody is in it.
    pub fn room_names(&self) -> (names: Vec<String>)
        ensures
            names.deep_view() == self@.names(),
    {
        let mut names: Vec<String> = Vec::new();
        let mut slot: usize = 0;
        while slot < self.rooms.len()
            invariant
                slot <= self.rooms.len(),
                names.deep_view() == self@.names().take(slot as int),
            decreases self.rooms.len() - slot,
        {
            let name = self.rooms[slot].name().to_owned();
            proof {
                assert(self@.rooms[slot as int] == self.rooms[slot as int]@);
                assert(names.deep_view().push(name@) =~= self@.names().take(slot + 1));
            }
            names.push(name);
            assert(names.deep_view() =~= self@.names().take(slot + 1));
            slot = slot + 1;
        }
        assert(self@.names().take(self.rooms.len() as int) =~= self@.names());
        names
    }

    /// The display names present in the room at `slot`, each once, in no
    /// particular order; `None` where there is no such slot.
    pub fn roster(&self, slot: usize) -> (names: Option<Vec<String>>)
        ensures
            match names {
                Some(roster) => self@.has(slot as int) && is_roster(
                    roster.deep_view(),
                    self@.rooms[slot as int].members,
                ),
                None => !self@.has(slot as int),
            },
    {
        if slot < self.rooms.len() {
            assert(self@.rooms[slot as int] == self.rooms[slot as int]@);
            Some(self.rooms[slot].roster())
        } else {
            None
        }
    }

    /// Publishes `e` in the room at `slot`. Where there is no such slot the
    /// envelope is dropped.
    pub fn publish(&mut self, slot: usize, e: Envelope)
        requires
            old(self).wf(),
        ensures
            final(self).wf(),
            final(self)@ == old(self)@.publish(slot as int, e@),
    {
        if slot < self.rooms.len() {
            assert(self@.rooms[slot as int] == self.rooms[slot as int]@);
            self.rooms[slot].publish(e);
            proof {
                self.lemma_room_replaced(*old(self), slot as int);
            }
        }
    }

    /// Hands the subscriber `id` of the room at `slot` its oldest pending
    /// envelope. Where there is no such slot the answer is
    /// [`Delivery::Closed`].
    pub fn receive(&mut self, slot: usize, id: usize) -> (delivery: Delivery)
        requires
            old(self).wf(),
        ensures
            final(self).wf(),
            final(self)@ == old(self)@.receive(slot as int, id as int),
            delivery@ == old(self)@.delivery(slot as int, id as int),
    {
        if slot < self.rooms.len() {
            assert(self@.rooms[slot as int] == self.rooms[slot as int]@);
            let delivery = self.rooms[slot].receive(id);
            proof {
                self.lemma_room_replaced(*old(self), slot as int);
            }
            delivery
        } else {
            Delivery::Closed
        }
    }

    /// Lets a session join the room at `slot` as `name` and returns its
    /// subscription and the roster announced; `None`, and nothing changed,
    /// where there is no such slot.
    pub fn join(&mut self, slot: usize, name: &str) -> (joined: Option<(usize, Vec<String>)>)
        requires
            old(self).wf(),
        ensures
            final(self).wf(),
            match joined {
                Some((id, roster)) => {
                    &&& old(self)@.has(slot as int)
                    &&& id == old(self)@.rooms[slot as int].bus.inboxes.len()
                    &&& is_roster(roster.deep_view(), old(self)@.rooms[slot as int].members.insert(name@))
                    &&& final(self)@ == old(self)@.join(slot as int, name@, roster.deep_view())
                },
                None => !old(self)@.has(slot as int) && final(self)@ == old(self)@,
            },
    {
        if slot < self.rooms.len() {
            assert(self@.rooms[slot as int] == self.rooms[slot as int]@);
            let joined = self.rooms[slot].join(name);
            proof {
                self.lemma_room_replaced(*old(self), slot as int);
            }
            Some(joined)
        } else {
            None
        }
    }

    /// Lets the session with the subscription `id` and the name `name` leave
    /// the room at `slot` and returns the roster announced; `None`, and
    /// nothing changed, where there is no such slot.
    pub fn part(&mut self, slot: usize, id: usize, name: &str) -> (left: Option<Vec<String>>)
        requires
            old(self).wf(),
        ensures
            final(self).wf(),
            match left {
                Some(roster) => {
                    &&& old(self)@.has(slot as int)
                    &&& is_roster(roster.deep_view(), old(self)@.rooms[slot as int].members.remove(name@))
                    &&& final(self)@ == old(self)@.part(slot as int, id as int, name@, roster.deep_view())
                },
                None => !old(self)@.has(slot as int) && final(self)@ == old(self)@,
            },
    {
        if slot < self.rooms.len() {
            assert(self@.rooms[slot as int] == self.rooms[slot as int]@);
            let roster = self.rooms[slot].part(id, name);
            proof {
                self.lemma_room_replaced(*old(self), slot as int);
            }
            Some(roster)
        } else {
            None
        }
    }

    /// Replacing one room by a consistent room of the same name keeps the
    /// registry consistent and changes its view at that slot alone.
    proof fn lemma_room_replaced(&self, before: Registry, slot: int)
        requires
            before.wf(),
            0 <= slot < before.rooms.len(),
            self.index == before.index,
            self.rooms@ == before.rooms@.update(slot, self.rooms[slot]),
            self.rooms[slot].wf(),
            self.rooms[slot]@.name == before.rooms[slot]@.name,
        ensures
            self.wf(),
            self@ == before@.with_room(slot, self.rooms[slot]@),
    {
        assert(self@.rooms =~= before@.rooms.update(slot, self.rooms[slot]@));
        assert forall|other: int| 0 <= other < self.rooms.len() implies (#[trigger] self.rooms[other]).wf()
            && self.rooms[other]@.name.len() > 0 && self.rooms[other]@.name == before.rooms[other]@.name by {
            if other != slot {
                assert(self.rooms[other] == before.rooms[other]);
            }
        }
        assert forall|name: Seq<char>| #[trigger]
            index_entries(self.index).contains_key(name) implies index_entries(self.index)[name]
            < self.rooms.len() && self.rooms[index_entries(self.index)[name] as int]@.name == name by {
            let at = index_entries(self.index)[name] as int;
            assert(before.rooms[at]@.name == name);
            assert(self.rooms[at]@.name == before.rooms[at]@.name);
        }
        assert forall|other: int| 0 <= other < self.rooms.len() implies index_entries(self.index).contains_key(
            (#[trigger] self.rooms[other])@.name,
        ) && index_entries(self.index)[self.rooms[other]@.name] == other by {
            assert(self.rooms[other]@.name == before.rooms[other]@.name);
            assert(index_entries(before.index)[before.rooms[other]@.name] == other);
        }
    }
}

} // verus!
