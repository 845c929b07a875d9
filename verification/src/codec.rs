//! The wire shape of an envelope and of the join handshake.
//!
//! An envelope travels as a JSON object with the members `username`,
//! `message`, `channel` and `message_type`. Reading JSON text and escaping a
//! string are left to `serde_json`; which members an envelope needs and how
//! the object is put together is decided here.

use crate::envelope::{Envelope, EnvelopeView};
use serde_json::Value;
use vstd::prelude::*;
use vstd::string::StringExecFns;

verus! {

/// What the codec reads of one member of a JSON object.
#[derive(Debug, PartialEq, Eq)]
pub enum Field {
    /// The member is `null`.
    Null,
    /// The member is a string.
    Text(String),
    /// The member is a boolean, a number, an array or an object.
    Other,
}

/// The mathematical value of a [`Field`].
pub enum FieldView {
    Null,
    Text(Seq<char>),
    Other,
}

impl View for Field {
    type V = FieldView;

    open spec fn view(&self) -> FieldView {
        match self {
            Field::Null => FieldView::Null,
            Field::Text(s) => FieldView::Text(s@),
            Field::Other => FieldView::Other,
        }
    }
}

/// The members of a JSON object: each key with what its value is.
pub type Members = Seq<(Seq<char>, FieldView)>;

/// The members that `serde_json` reads from `text` as one JSON object, or
/// `None` where it does not accept `text` as an object.
pub uninterp spec fn json_object(text: Seq<char>) -> Option<Members>;

/// The JSON string literal that `serde_json` writes for `text`: the text in
/// double quotes, with the characters that JSON reserves escaped.
pub uninterp spec fn json_string(text: Seq<char>) -> Seq<char>;

/// The members of an object as read into memory.
pub open spec fn members_view(members: Seq<(String, Field)>) -> Members {
    members.map_values(|m: (String, Field)| (m.0@, m.1@))
}

/// `serde_json::from_str`, reading a `serde_json::Map`: the members of the
/// object that `text` holds, each value told apart by its variant, or `None`
/// where `serde_json` reports an error.
#[verifier::external_body]
fn read_object(text: &str) -> (members: Option<Vec<(String, Field)>>)
    ensures
        match members {
            Some(m) => json_object(text@) == Some(members_view(m@)),
            None => json_object(text@) is None,
        },
{
    let object: serde_json::Map<String, Value> = match serde_json::from_str(text) { Ok(o) => o, Err(_) => return None };
    let mut members = Vec::new();
    for (key, value) in object {
        let field = match value {
            Value::Null => Field::Null,
            Value::String(s) => Field::Text(s),
            Value::Bool(_) => Field::Other,
            Value::Number(_) => Field::Other,
            Value::Array(_) => Field::Other,
            Value::Object(_) => Field::Other,
        };
        members.push((key, field));
    }
    Some(members)
}

/// `serde_json::to_string` of a string slice: the JSON string literal for
/// `text`.
#[verifier::external_body]
fn quote(text: &str) -> (literal: String)
    ensures
        literal@ == json_string(text@),
{
    serde_json::to_string(text).unwrap_or_default()
}

/// The first member of `members` whose key is `key`.
pub open spec fn member(members: Members, key: Seq<char>) -> Option<FieldView>
    decreases members.len(),
{
    if members.len() == 0 {
        None
    } else if members[0].0 == key {
        Some(members[0].1)
    } else {
        member(members.drop_first(), key)
    }
}

/// The member `key` as a string that must be there.
pub open spec fn required_text(members: Members, key: Seq<char>) -> Option<Seq<char>> {
    match member(members, key) {
        Some(FieldView::Text(s)) => Some(s),
        _ => None,
    }
}

/// The member `key` as a string that may be missing or `null`: `Ok(None)`
/// where it is, `Err(())` where it is there and is no string.
pub open spec fn optional_text(members: Members, key: Seq<char>) -> Result<Option<Seq<char>>, ()> {
    match member(members, key) {
        None => Ok(None),
        Some(FieldView::Null) => Ok(None),
        Some(FieldView::Text(s)) => Ok(Some(s)),
        Some(FieldView::Other) => Err(()),
    }
}

/// Why a payload is no envelope.
#[derive(Debug, Clone, Copy, PartialEq, Eq, Structural)]
pub enum DecodeError {
    /// The payload is no JSON object.
    NotStructured,
    /// The object has no string `username`.
    NoSender,
    /// The object has no string `message`.
    NoBody,
    /// The object has no string `channel`.
    NoRoom,
    /// The object's `message_type` is neither missing, `null` nor a string.
    BadKind,
}

/// The envelope that an object with the given members stands for. The members
/// are examined in the order `username`, `message`, `channel`,
/// `message_type`, and the first one at fault decides the error.
pub open spec fn envelope_of_members(members: Members) -> Result<EnvelopeView, DecodeError> {
    match required_text(members, "username"@) {
        None => Err(DecodeError::NoSender),
        Some(sender) => match required_text(members, "message"@) {
            None => Err(DecodeError::NoBody),
            Some(body) => match required_text(members, "channel"@) {
                None => Err(DecodeError::NoRoom),
                Some(room) => match optional_text(members, "message_type"@) {
                    Err(_) => Err(DecodeError::BadKind),
                    Ok(kind) => Ok(EnvelopeView { sender, body, room, kind }),
                },
            },
        },
    }
}

/// The envelope that a payload stands for.
pub open spec fn decoded(text: Seq<char>) -> Result<EnvelopeView, DecodeError> {
    match json_object(text) {
        None => Err(DecodeError::NotStructured),
        Some(members) => envelope_of_members(members),
    }
}

/// The view of a decoding result.
pub open spec fn decoding_view(r: Result<Envelope, DecodeError>) -> Result<EnvelopeView, DecodeError> {
    match r {
        Ok(e) => Ok(e@),
        Err(e) => Err(e),
    }
}

/// What the first message of a connection asks for: to join `room` as `name`.
#[derive(Debug, PartialEq, Eq)]
pub struct JoinRequest {
    pub name: String,
    pub room: String,
}

/// The mathematical value of a [`JoinRequest`].
pub struct JoinRequestView {
    pub name: Seq<char>,
    pub room: Seq<char>,
}

impl View for JoinRequest {
    type V = JoinRequestView;

    open spec fn view(&self) -> JoinRequestView {
        JoinRequestView { name: self.name@, room: self.room@ }
    }
}

/// Why a handshake is rejected.
#[derive(Debug, Clone, Copy, PartialEq, Eq, Structural)]
pub enum ProtocolError {
    /// The first frame is no text, or its text is no JSON object.
    NotStructured,
    /// The object has no string `username`.
    NoName,
    /// The object has no string `channel`.
    NoRoom,
    /// The object's `message_type` is neither missing, `null` nor a string.
    BadKind,
    /// The room asked for has the empty name.
    EmptyRoom,
    /// The session is past its handshake.
    OutOfSequence,
}

/// The join request that an object with the given members stands for. The
/// members are examined in the order `username`, `channel`, `message_type`,
/// and the first one at fault decides the error.
pub open spec fn join_of_members(members: Members) -> Result<JoinRequestView, ProtocolError> {
    match required_text(members, "username"@) {
        None => Err(ProtocolError::NoName),
        Some(name) => match required_text(members, "channel"@) {
            None => Err(ProtocolError::NoRoom),
            Some(room) => match optional_text(members, "message_type"@) {
                Err(_) => Err(ProtocolError::BadKind),
                Ok(_) => Ok(JoinRequestView { name, room }),
            },
        },
    }
}

/// The join request that the first frame of a connection stands for; `None`
/// is a first frame that is no text.
pub open spec fn join_requested(first: Option<Seq<char>>) -> Result<JoinRequestView, ProtocolError> {
    match first {
        None => Err(ProtocolError::NotStructured),
        Some(text) => match json_object(text) {
            None => Err(ProtocolError::NotStructured),
            Some(members) => join_of_members(members),
        },
    }
}

/// The text of a connection's first frame as a mathematical value.
pub open spec fn first_view(first: Option<&str>) -> Option<Seq<char>> {
    match first {
        Some(text) => Some(text@),
        None => None,
    }
}

/// The view of a handshake's decoding result.
pub open spec fn join_view(r: Result<JoinRequest, ProtocolError>) -> Result<JoinRequestView, ProtocolError> {
    match r {
        Ok(request) => Ok(request@),
        Err(e) => Err(e),
    }
}

/// The wire text of an envelope: an object with the four members in the order
/// `username`, `message`, `channel`, `message_type`, without white space, the
/// last one `null` where the envelope has no kind.
pub open spec fn encoded(e: EnvelopeView) -> Seq<char> {
    "{\"username\":"@ + json_string(e.sender) + ",\"message\":"@ + json_string(e.body)
        + ",\"channel\":"@ + json_string(e.room) + ",\"message_type\":"@ + (match e.kind {
        Some(k) => json_string(k),
        None => "null"@,
    }) + "}"@
}

/// The string literals of `names`, each but the first with a comma before it.
pub open spec fn listed(names: Seq<Seq<char>>) -> Seq<char>
    decreases names.len(),
{
    if names.len() == 0 {
        Seq::<char>::empty()
    } else if names.len() == 1 {
        json_string(names[0])
    } else {
        listed(names.drop_last()) + ","@ + json_string(names.last())
    }
}

/// The wire text of a list of display names: a JSON array of strings without
/// white space.
pub open spec fn encoded_names(names: Seq<Seq<char>>) -> Seq<char> {
    "["@ + listed(names) + "]"@
}

fn find_member<'a>(members: &'a Vec<(String, Field)>, key: &str) -> (found: Option<&'a Field>)
    ensures
        match found {
            Some(f) => member(members_view(members@), key@) == Some(f@),
            None => member(members_view(members@), key@) is None,
        },
{
    let wanted = String::from_str(key);
    let ghost all = members_view(members@);
    assert(all.subrange(0, all.len() as int) == all);
    let mut i: usize = 0;
    while i < members.len()
        invariant
            i <= members.len(),
            wanted@ == key@,
            all == members_view(members@),
            member(all, key@) == member(all.subrange(i as int, all.len() as int), key@),
        decreases members.len() - i,
    {
        let ghost rest = all.subrange(i as int, all.len() as int);
        assert(rest[0] == (members@[i as int].0@, members@[i as int].1@));
        if members[i].0 == wanted {
            return Some(&members[i].1);
        }
        assert(rest.drop_first() == all.subrange(i + 1, all.len() as int));
        i = i + 1;
    }
    None
}

fn required<'a>(members: &'a Vec<(String, Field)>, key: &str) -> (text: Option<&'a String>)
    ensures
        match text {
            Some(s) => required_text(members_view(members@), key@) == Some(s@),
            None => required_text(members_view(members@), key@) is None,
        },
{
    match find_member(members, key) {
        Some(Field::Text(s)) => Some(s),
        _ => None,
    }
}

fn optional<'a>(members: &'a Vec<(String, Field)>, key: &str) -> (text: Result<Option<&'a String>, ()>)
    ensures
        match text {
            Ok(Some(s)) => optional_text(members_view(members@), key@) == Ok::<_, ()>(Some(s@)),
            Ok(None) => optional_text(members_view(members@), key@) == Ok::<_, ()>(None::<Seq<char>>),
            Err(_) => optional_text(members_view(members@), key@) is Err,
        },
{
    match find_member(members, key) {
        None => Ok(None),
        Some(Field::Null) => Ok(None),
        Some(Field::Text(s)) => Ok(Some(s)),
        Some(Field::Other) => Err(()),
    }
}

/// Builds the envelope that the members of one JSON object stand for.
pub fn envelope_from_members(members: &Vec<(String, Field)>) -> (r: Result<Envelope, DecodeError>)
    ensures
        decoding_view(r) == envelope_of_members(members_view(members@)),
{
    let sender = match required(members, "username") {
        Some(s) => s,
        None => return Err(DecodeError::NoSender),
    };
    let body = match required(members, "message") {
        Some(s) => s,
        None => return Err(DecodeError::NoBody),
    };
    let room = match required(members, "channel") {
        Some(s) => s,
        None => return Err(DecodeError::NoRoom),
    };
    let kind = match optional(members, "message_type") {
        Ok(k) => k,
        Err(_) => return Err(DecodeError::BadKind),
    };
    Ok(
        Envelope {
            sender: sender.clone(),
            body: body.clone(),
            room: room.clone(),
            kind: match kind {
                Some(k) => Some(k.clone()),
                None => None,
            },
        },
    )
}

/// Decodes one payload. Any JSON object with string members `username`,
/// `message` and `channel` is an envelope; members beyond the four are
/// ignored.
pub fn decode(text: &str) -> (r: Result<Envelope, DecodeError>)
    ensures
        decoding_view(r) == decoded(text@),
{
    match read_object(text) {
        None => Err(DecodeError::NotStructured),
        Some(members) => envelope_from_members(&members),
    }
}

/// Builds the join request that the members of one JSON object stand for.
pub fn join_from_members(members: &Vec<(String, Field)>) -> (r: Result<JoinRequest, ProtocolError>)
    ensures
        join_view(r) == join_of_members(members_view(members@)),
{
    let name = match required(members, "username") {
        Some(s) => s,
        None => return Err(ProtocolError::NoName),
    };
    let room = match required(members, "channel") {
        Some(s) => s,
        None => return Err(ProtocolError::NoRoom),
    };
    match optional(members, "message_type") {
        Ok(_) => Ok(JoinRequest { name: name.clone(), room: room.clone() }),
        Err(_) => Err(ProtocolError::BadKind),
    }
}

/// Decodes the first frame of a connection: `None` where the connection's
/// first frame was no text. A JSON object with string members `username` and
/// `channel` asks to join; a `message` is not needed, and none is read.
pub fn decode_join(first: Option<&str>) -> (r: Result<JoinRequest, ProtocolError>)
    ensures
        join_view(r) == join_requested(first_view(first)),
{
    let text = match first {
        Some(text) => text,
        None => return Err(ProtocolError::NotStructured),
    };
    match read_object(text) {
        None => Err(ProtocolError::NotStructured),
        Some(members) => join_from_members(&members),
    }
}

/// The notice sent to a client whose handshake is rejected.
pub fn rejection_notice() -> (notice: String)
    ensures
        notice@ == "Invalid join message"@,
{
    String::from_str("Invalid join message")
}

/// Encodes an envelope for the wire.
pub fn encode(e: &Envelope) -> (text: String)
    ensures
        text@ == encoded(e@),
{
    let mut text = String::from_str("{\"username\":");
    text.append(quote(e.sender.as_str()).as_str());
    text.append(",\"message\":");
    text.append(quote(e.body.as_str()).as_str());
    text.append(",\"channel\":");
    text.append(quote(e.room.as_str()).as_str());
    text.append(",\"message_type\":");
    match &e.kind {
        Some(k) => text.append(quote(k.as_str()).as_str()),
        None => text.append("null"),
    }
    text.append("}");
    text
}

/// Encodes a list of display names as the body of a presence snapshot.
pub fn encode_names(names: &Vec<String>) -> (text: String)
    ensures
        text@ == encoded_names(names.deep_view()),
{
    let ghost all = names.deep_view();
    let mut text = String::from_str("[");
    let mut i: usize = 0;
    while i < names.len()
        invariant
            i <= names.len(),
            all == names.deep_view(),
            text@ == "["@ + listed(all.take(i as int)),
        decreases names.len() - i,
    {
        let ghost before = all.take(i as int);
        let ghost after = all.take(i + 1);
        assert(after.drop_last() == before);
        assert(after.last() == names@[i as int]@);
        if i > 0 {
            text.append(",");
        }
        text.append(quote(names[i].as_str()).as_str());
        i = i + 1;
    }
    assert(all.take(names.len() as int) == all);
    text.append("]");
    text
}

} // verus!
