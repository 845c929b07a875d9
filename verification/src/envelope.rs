//! The unit of relayed content: one chat message or one synthesized system
//! event, tagged with its sender, its room and its kind.

use vstd::prelude::*;
use vstd::string::StringExecFns;

verus! {

/// One relayed message. An envelope is built once and fanned out unchanged to
/// every subscriber of the room it was published in.
///
/// `kind` is the wire's `message_type`: absent for relayed plain text,
/// `"system"` for join and leave notices, `"user_list"` for presence
/// snapshots, and whatever a client put there for a relayed structured message.
#[derive(Debug, PartialEq, Eq)]
pub struct Envelope {
    pub sender: String,
    pub body: String,
    pub room: String,
    pub kind: Option<String>,
}

/// The mathematical value of an [`Envelope`].
pub struct EnvelopeView {
    pub sender: Seq<char>,
    pub body: Seq<char>,
    pub room: Seq<char>,
    pub kind: Option<Seq<char>>,
}

impl View for Envelope {
    type V = EnvelopeView;

    open spec fn view(&self) -> EnvelopeView {
        EnvelopeView {
            sender: self.sender@,
            body: self.body@,
            room: self.room@,
            kind: match self.kind {
                Some(k) => Some(k@),
                None => None,
            },
        }
    }
}

/// The sender of every synthesized envelope.
pub open spec fn system_sender() -> Seq<char> {
    "System"@
}

/// The kind of join and leave notices.
pub open spec fn system_kind() -> Seq<char> {
    "system"@
}

/// The kind of presence snapshots.
pub open spec fn snapshot_kind() -> Seq<char> {
    "user_list"@
}

/// A plain chat message: no kind.
pub open spec fn chat_envelope(sender: Seq<char>, body: Seq<char>, room: Seq<char>) -> EnvelopeView {
    EnvelopeView { sender, body, room, kind: None }
}

/// The notice that `name` joined `room`: the sentence `<name> joined <room>`.
pub open spec fn join_notice(name: Seq<char>, room: Seq<char>) -> EnvelopeView {
    EnvelopeView {
        sender: system_sender(),
        body: name + " joined "@ + room,
        room,
        kind: Some(system_kind()),
    }
}

/// The notice that `name` left `room`: the sentence `<name> left <room>`.
pub open spec fn leave_notice(name: Seq<char>, room: Seq<char>) -> EnvelopeView {
    EnvelopeView {
        sender: system_sender(),
        body: name + " left "@ + room,
        room,
        kind: Some(system_kind()),
    }
}

/// A presence snapshot of `room` whose body is `listing`, the serialized list
/// of the display names present.
pub open spec fn presence_snapshot(listing: Seq<char>, room: Seq<char>) -> EnvelopeView {
    EnvelopeView {
        sender: system_sender(),
        body: listing,
        room,
        kind: Some(snapshot_kind()),
    }
}

impl Envelope {
    /// A plain chat message from `sender` to `room`.
    pub fn chat(sender: &str, body: &str, room: &str) -> (e: Envelope)
        ensures
            e@ == chat_envelope(sender@, body@, room@),
    {
        Envelope {
            sender: String::from_str(sender),
            body: String::from_str(body),
            room: String::from_str(room),
            kind: None,
        }
    }

    /// The system notice announcing that `name` joined `room`.
    pub fn joined(name: &str, room: &str) -> (e: Envelope)
        ensures
            e@ == join_notice(name@, room@),
    {
        let mut body = String::from_str(name);
        body.append(" joined ");
        body.append(room);
        Envelope {
            sender: String::from_str("System"),
            body,
            room: String::from_str(room),
            kind: Some(String::from_str("system")),
        }
    }

    /// The system notice announcing that `name` left `room`.
    pub fn left(name: &str, room: &str) -> (e: Envelope)
        ensures
            e@ == leave_notice(name@, room@),
    {
        let mut body = String::from_str(name);
        body.append(" left ");
        body.append(room);
        Envelope {
            sender: String::from_str("System"),
            body,
            room: String::from_str(room),
            kind: Some(String::from_str("system")),
        }
    }

    /// The presence snapshot of `room` with the serialized member list
    /// `listing` as its body.
    pub fn snapshot(listing: String, room: &str) -> (e: Envelope)
        ensures
            e@ == presence_snapshot(listing@, room@),
    {
        Envelope {
            sender: String::from_str("System"),
            body: listing,
            room: String::from_str(room),
            kind: Some(String::from_str("user_list")),
        }
    }
}

impl Clone for Envelope {
    fn clone(&self) -> (copy: Envelope)
        ensures
            copy@ == self@,
    {
        Envelope {
            sender: self.sender.clone(),
            body: self.body.clone(),
            room: self.room.clone(),
            kind: match &self.kind {
                Some(k) => Some(k.clone()),
                None => None,
            },
        }
    }
}

} // verus!
