//! The state machine of one connected client.
//!
//! A session awaits its join, is active in one room, and is closed. The server
//! owns the connection: it hands the session what the connection produced and
//! does what the session answers. A session takes each step on the registry
//! it is given, so whoever shares a registry between sessions lets one step
//! finish before the next begins.

use crate::bus::{Delivery, DeliveryView};
use crate::codec::{
    decode, decode_join, decoded, decoding_view, encode, encoded, first_view, join_requested, join_view,
    DecodeError, JoinRequest, JoinRequestView, ProtocolError,
};
use crate::envelope::{chat_envelope, Envelope, EnvelopeView};
use crate::presence::is_roster;
use crate::registry::{lemma_resolve_again_finds_the_same_room, Registry, RegistryView};
use vstd::prelude::*;

verus! {

/// Where a session stands.
#[derive(Debug, Clone, Copy, PartialEq, Eq, Structural)]
pub enum Phase {
    /// Connected; room and display name are not known yet.
    AwaitingJoin,
    /// Joined to a room and relaying.
    Active,
    /// Done. A closed session never publishes.
    Closed,
}

/// The mathematical value of a [`Session`]. Slot, receiver, name and room
/// mean something while the session is active.
pub struct SessionView {
    pub phase: Phase,
    pub slot: int,
    pub receiver: int,
    pub name: Seq<char>,
    pub room: Seq<char>,
}

/// What the server is to do next for a session's client.
pub enum OutboundView {
    /// Send this text to the client.
    Send(Seq<char>),
    /// Nothing to send for now.
    Idle,
    /// Close the connection.
    Disconnect,
}

impl SessionView {
    /// A session as it starts.
    pub open spec fn fresh() -> SessionView {
        SessionView { phase: Phase::AwaitingJoin, slot: 0, receiver: 0, name: Seq::empty(), room: Seq::empty() }
    }

    /// How a handshake with the given request ends: out of sequence unless
    /// the session awaits its join, else with the request's own error, else
    /// with an error where the room's name is empty.
    pub open spec fn handshake_error(self, request: Result<JoinRequestView, ProtocolError>) -> Option<
        ProtocolError,
    > {
        if self.phase != Phase::AwaitingJoin {
            Some(ProtocolError::OutOfSequence)
        } else {
            match request {
                Err(e) => Some(e),
                Ok(r) => if r.room.len() == 0 {
                    Some(ProtocolError::EmptyRoom)
                } else {
                    None
                },
            }
        }
    }

    /// The session after a handshake with the given request on the registry
    /// `registry`. An out-of-sequence handshake leaves the session as it is;
    /// a failed one closes it; a good one makes it active in the room asked
    /// for, with the subscription that comes after the room's earlier ones.
    pub open spec fn after_handshake(
        self,
        registry: RegistryView,
        request: Result<JoinRequestView, ProtocolError>,
    ) -> SessionView {
        if self.phase != Phase::AwaitingJoin {
            self
        } else if self.handshake_error(request) is Some {
            SessionView { phase: Phase::Closed, ..self }
        } else {
            let want = request->Ok_0;
            let slot = registry.slot_of(want.room);
            SessionView {
                phase: Phase::Active,
                slot,
                receiver: registry.resolve(want.room).rooms[slot].bus.inboxes.len() as int,
                name: want.name,
                room: want.room,
            }
        }
    }

    /// The registry after that handshake, where the snapshot published lists
    /// `roster`: unchanged unless the handshake is good.
    pub open spec fn registry_after_handshake(
        self,
        registry: RegistryView,
        request: Result<JoinRequestView, ProtocolError>,
        roster: Seq<Seq<char>>,
    ) -> RegistryView {
        if self.handshake_error(request) is Some {
            registry
        } else {
            let want = request->Ok_0;
            registry.resolve(want.room).join(registry.slot_of(want.room), want.name, roster)
        }
    }

    /// The envelope that the session relays for the inbound text `text`: the
    /// envelope it decodes to, unchanged, or, where it is no envelope, the
    /// text as a plain chat message of the session's own name and room.
    pub open spec fn relayed(self, text: Seq<char>, decoded: Result<EnvelopeView, DecodeError>) -> EnvelopeView {
        match decoded {
            Ok(e) => e,
            Err(_) => chat_envelope(self.name, text, self.room),
        }
    }

    /// The registry after the session is handed the inbound text `text`: an
    /// active session publishes in its room, any other does nothing.
    pub open spec fn registry_after_text(
        self,
        registry: RegistryView,
        text: Seq<char>,
        decoded: Result<EnvelopeView, DecodeError>,
    ) -> RegistryView {
        if self.phase == Phase::Active {
            registry.publish(self.slot, self.relayed(text, decoded))
        } else {
            registry
        }
    }

    /// What the session has the server do next: send the oldest envelope
    /// pending for it, wait, or disconnect because the session is closed,
    /// lagging, or without a subscription.
    pub open spec fn outbound(self, registry: RegistryView) -> OutboundView {
        match self.phase {
            Phase::AwaitingJoin => OutboundView::Idle,
            Phase::Closed => OutboundView::Disconnect,
            Phase::Active => match registry.delivery(self.slot, self.receiver) {
                DeliveryView::Envelope(e) => OutboundView::Send(encoded(e)),
                DeliveryView::Empty => OutboundView::Idle,
                DeliveryView::Lagged => OutboundView::Disconnect,
                DeliveryView::Closed => OutboundView::Disconnect,
            },
        }
    }

    /// The registry after the session is asked what to send: the envelope
    /// sent, if any, is no longer pending.
    pub open spec fn registry_after_outbound(self, registry: RegistryView) -> RegistryView {
        if self.phase == Phase::Active {
            registry.receive(self.slot, self.receiver)
        } else {
            registry
        }
    }

    /// The session after it is closed.
    pub open spec fn after_close(self) -> SessionView {
        SessionView { phase: Phase::Closed, ..self }
    }

    /// The registry after the session is closed, where the snapshot published
    /// lists `roster`: an active session leaves its room, any other does
    /// nothing.
    pub open spec fn registry_after_close(self, registry: RegistryView, roster: Seq<Seq<char>>) -> RegistryView {
        if self.phase == Phase::Active {
            registry.part(self.slot, self.receiver, self.name, roster)
        } else {
            registry
        }
    }

    /// Closing the session runs the teardown: it is active in a room that the
    /// registry holds.
    pub open spec fn tears_down(self, registry: RegistryView) -> bool {
        self.phase == Phase::Active && registry.has(self.slot)
    }
}

/// Closing a session a second time does nothing: the session stays as the
/// first close left it, and so does the registry, whatever roster the first
/// close announced. The teardown runs at most once.
pub proof fn lemma_close_again_changes_nothing(
    session: SessionView,
    registry: RegistryView,
    first: Seq<Seq<char>>,
    second: Seq<Seq<char>>,
)
    ensures
        !session.after_close().tears_down(session.registry_after_close(registry, first)),
        session.after_close().after_close() == session.after_close(),
        session.after_close().registry_after_close(session.registry_after_close(registry, first), second)
            == session.registry_after_close(registry, first),
{
}

/// A handshake that is rejected touches no room: the registry stays as it
/// was, and the session is not active afterwards.
pub proof fn lemma_rejected_handshake_changes_nothing(
    session: SessionView,
    registry: RegistryView,
    request: Result<JoinRequestView, ProtocolError>,
    roster: Seq<Seq<char>>,
)
    requires
        session.phase == Phase::AwaitingJoin,
        session.handshake_error(request) is Some,
    ensures
        session.registry_after_handshake(registry, request, roster) == registry,
        session.after_handshake(registry, request).phase == Phase::Closed,
{
}

/// A session that is closed stays closed and publishes nothing, whatever it
/// is handed.
pub proof fn lemma_closed_session_is_silent(
    session: SessionView,
    registry: RegistryView,
    text: Seq<char>,
    decoded: Result<EnvelopeView, DecodeError>,
    request: Result<JoinRequestView, ProtocolError>,
    roster: Seq<Seq<char>>,
)
    ensures
        session.after_close().registry_after_text(registry, text, decoded) == registry,
        session.after_close().registry_after_outbound(registry) == registry,
        session.after_close().outbound(registry) is Disconnect,
        session.after_close().after_handshake(registry, request) == session.after_close(),
        session.after_close().registry_after_handshake(registry, request, roster) == registry,
{
}

/// A good handshake puts the session into the room it asked for: the room at
/// the session's slot has the name asked for, the session's display name is
/// present in it, and every other room is as it was.
pub proof fn lemma_handshake_joins_the_room_asked_for(
    session: SessionView,
    registry: RegistryView,
    request: Result<JoinRequestView, ProtocolError>,
    roster: Seq<Seq<char>>,
    other: int,
)
    requires
        session.handshake_error(request) is None,
    ensures
        ({
            let after = session.after_handshake(registry, request);
            let rooms = session.registry_after_handshake(registry, request, roster);
            &&& after.phase == Phase::Active
            &&& after.name == request->Ok_0.name
            &&& after.room == request->Ok_0.room
            &&& rooms.has(after.slot)
            &&& rooms.rooms[after.slot].name == after.room
            &&& rooms.rooms[after.slot].members.contains(after.name)
            &&& rooms.rooms.len() <= registry.rooms.len() + 1
            &&& registry.has(other) && other != after.slot ==> rooms.rooms[other] == registry.rooms[other]
        }),
{
    let want = request->Ok_0;
    lemma_resolve_again_finds_the_same_room(registry, want.room);
}

/// What a session is to send depends on its own room alone: two registries
/// that agree on the room at the session's slot give the same answer.
pub proof fn lemma_session_hears_only_its_room(session: SessionView, one: RegistryView, other: RegistryView)
    requires
        one.has(session.slot),
        other.has(session.slot),
        one.rooms[session.slot] == other.rooms[session.slot],
    ensures
        session.outbound(one) == session.outbound(other),
{
}

/// What the server is to do next for a session's client.
#[derive(Debug, PartialEq, Eq)]
pub enum Outbound {
    /// Send this text to the client.
    Send(String),
    /// Nothing to send for now.
    Idle,
    /// Close the connection.
    Disconnect,
}

impl View for Outbound {
    type V = OutboundView;

    open spec fn view(&self) -> OutboundView {
        match self {
            Outbound::Send(text) => OutboundView::Send(text@),
            Outbound::Idle => OutboundView::Idle,
            Outbound::Disconnect => OutboundView::Disconnect,
        }
    }
}

/// The roster that a step announced, or the empty one.
pub open spec fn announced<E>(r: Result<Vec<String>, E>) -> Seq<Seq<char>> {
    match r {
        Ok(roster) => roster.deep_view(),
        Err(_) => Seq::empty(),
    }
}

/// The server's side of one connected client.
pub struct Session {
    phase: Phase,
    slot: usize,
    receiver: usize,
    name: String,
    room: String,
}

impl View for Session {
    type V = SessionView;

    closed spec fn view(&self) -> SessionView {
        SessionView {
            phase: self.phase,
            slot: self.slot as int,
            receiver: self.receiver as int,
            name: self.name@,
            room: self.room@,
        }
    }
}

impl Session {
    /// The session of a connection that has just been opened.
    pub fn new() -> (session: Session)
        ensures
            session@ == SessionView::fresh(),
    {
        Session { phase: Phase::AwaitingJoin, slot: 0, receiver: 0, name: String::new(), room: String::new() }
    }

    /// Where the session stands.
    pub fn phase(&self) -> (phase: Phase)
        ensures
            phase == self@.phase,
    {
        self.phase
    }

    /// The display name that the session joined with.
    pub fn name(&self) -> (name: &str)
        ensures
            name@ == self@.name,
    {
        self.name.as_str()
    }

    /// The name of the room that the session joined.
    pub fn room(&self) -> (room: &str)
        ensures
            room@ == self@.room,
    {
        self.room.as_str()
    }

    /// The slot of the room that the session joined.
    pub fn slot(&self) -> (slot: usize)
        ensures
            slot == self@.slot,
    {
        self.slot
    }

    /// The subscription with which the session receives.
    pub fn receiver(&self) -> (receiver: usize)
        ensures
            receiver == self@.receiver,
    {
        self.receiver
    }

    /// Takes the decoded first message of the connection. A good request
    /// resolves the room, subscribes, marks the name present and publishes
    /// the join notice and a presence snapshot, whose roster is returned. A
    /// bad one closes the session and leaves the registry untouched.
    pub fn accept(&mut self, registry: &mut Registry, request: Result<JoinRequest, ProtocolError>) -> (r: Result<
        Vec<String>,
        ProtocolError,
    >)
        requires
            old(registry).wf(),
        ensures
            final(registry).wf(),
            match r {
                Ok(roster) => old(self)@.handshake_error(join_view(request)) is None && is_roster(
                    roster.deep_view(),
                    old(registry)@.resolve(request->Ok_0@.room).rooms[final(self)@.slot].members.insert(
                        request->Ok_0@.name,
                    ),
                ),
                Err(e) => old(self)@.handshake_error(join_view(request)) == Some(e)
                    && final(registry)@ == old(registry)@,
            },
            final(self)@ == old(self)@.after_handshake(old(registry)@, join_view(request)),
            final(registry)@ == old(self)@.registry_after_handshake(
                old(registry)@,
                join_view(request),
                announced(r),
            ),
    {
        match self.phase {
            Phase::AwaitingJoin => {},
            _ => {
                return Err(ProtocolError::OutOfSequence);
            },
        }
        let want = match request {
            Ok(want) => want,
            Err(e) => {
                self.phase = Phase::Closed;
                return Err(e);
            },
        };
        if want.room.as_str().is_empty() {
            self.phase = Phase::Closed;
            return Err(ProtocolError::EmptyRoom);
        }
        let slot = registry.resolve(want.room.as_str());
        match registry.join(slot, want.name.as_str()) {
            Some((receiver, roster)) => {
                self.phase = Phase::Active;
                self.slot = slot;
                self.receiver = receiver;
                self.name = want.name;
                self.room = want.room;
                Ok(roster)
            },
            None => {
                // Not reached: the slot has just been resolved.
                self.phase = Phase::Closed;
                Err(ProtocolError::EmptyRoom)
            },
        }
    }

    /// Takes the first frame of the connection, `None` where it was no text,
    /// and joins the room it asks for.
    pub fn handshake(&mut self, registry: &mut Registry, first: Option<&str>) -> (r: Result<
        Vec<String>,
        ProtocolError,
    >)
        requires
            old(registry).wf(),
        ensures
            final(registry).wf(),
            match r {
                Ok(_) => old(self)@.handshake_error(join_requested(first_view(first))) is None,
                Err(e) => old(self)@.handshake_error(join_requested(first_view(first))) == Some(e)
                    && final(registry)@ == old(registry)@,
            },
            final(self)@ == old(self)@.after_handshake(old(registry)@, join_requested(first_view(first))),
            final(registry)@ == old(self)@.registry_after_handshake(
                old(registry)@,
                join_requested(first_view(first)),
                announced(r),
            ),
    {
        let request = decode_join(first);
        self.accept(registry, request)
    }

    /// Relays one inbound text whose decoding is `decoded`: an active
    /// session publishes the envelope decoded, or the text as a plain chat
    /// message of its own where the text is no envelope.
    pub fn relay(&self, registry: &mut Registry, text: &str, decoded: Result<Envelope, DecodeError>)
        requires
            old(registry).wf(),
        ensures
            final(registry).wf(),
            final(registry)@ == self@.registry_after_text(old(registry)@, text@, decoding_view(decoded)),
            self@.phase == Phase::Active && decoded is Err ==> final(registry)@ == old(registry)@.publish(
                self@.slot,
                chat_envelope(self@.name, text@, self@.room),
            ),
    {
        match self.phase {
            Phase::Active => {
                let envelope = match decoded {
                    Ok(envelope) => envelope,
                    Err(_) => Envelope::chat(self.name.as_str(), text, self.room.as_str()),
                };
                registry.publish(self.slot, envelope);
            },
            _ => {},
        }
    }

    /// Takes one inbound text and relays it.
    pub fn on_text(&self, registry: &mut Registry, text: &str)
        requires
            old(registry).wf(),
        ensures
            final(registry).wf(),
            final(registry)@ == self@.registry_after_text(old(registry)@, text@, decoded(text@)),
            self@.phase == Phase::Active && decoded(text@) is Err ==> final(registry)@
                == old(registry)@.publish(self@.slot, chat_envelope(self@.name, text@, self@.room)),
    {
        let decoded = decode(text);
        self.relay(registry, text, decoded)
    }

    /// Says what the server is to do next for the client: send the oldest
    /// envelope pending, encoded for the wire; wait; or disconnect.
    pub fn next_outbound(&self, registry: &mut Registry) -> (out: Outbound)
        requires
            old(registry).wf(),
        ensures
            final(registry).wf(),
            out@ == self@.outbound(old(registry)@),
            final(registry)@ == self@.registry_after_outbound(old(registry)@),
    {
        match self.phase {
            Phase::AwaitingJoin => Outbound::Idle,
            Phase::Closed => Outbound::Disconnect,
            Phase::Active => match registry.receive(self.slot, self.receiver) {
                Delivery::Envelope(e) => Outbound::Send(encode(&e)),
                Delivery::Empty => Outbound::Idle,
                Delivery::Lagged => Outbound::Disconnect,
                Delivery::Closed => Outbound::Disconnect,
            },
        }
    }

    /// Closes the session. An active session runs the teardown: it ends its
    /// subscription, marks its name absent and publishes the leave notice
    /// and a presence snapshot, whose roster is returned. A session that is
    /// closed already, or never joined, changes nothing in the registry.
    pub fn close(&mut self, registry: &mut Registry) -> (left: Option<Vec<String>>)
        requires
            old(registry).wf(),
        ensures
            final(registry).wf(),
            final(self)@ == old(self)@.after_close(),
            match left {
                Some(roster) => {
                    &&& old(self)@.tears_down(old(registry)@)
                    &&& is_roster(
                        roster.deep_view(),
                        old(registry)@.rooms[old(self)@.slot].members.remove(old(self)@.name),
                    )
                    &&& final(registry)@ == old(self)@.registry_after_close(old(registry)@, roster.deep_view())
                },
                None => !old(self)@.tears_down(old(registry)@) && final(registry)@ == old(registry)@,
            },
    {
        match self.phase {
            Phase::Active => {
                self.phase = Phase::Closed;
                registry.part(self.slot, self.receiver, self.name.as_str())
            },
            _ => {
                self.phase = Phase::Closed;
                None
            },
        }
    }
}

} // verus!
