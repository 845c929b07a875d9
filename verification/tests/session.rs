use chat_relay::bus::{Delivery, BACKLOG_CAPACITY};
use chat_relay::codec::{decode, DecodeError, JoinRequest, ProtocolError};
use chat_relay::envelope::Envelope;
use chat_relay::registry::Registry;
use chat_relay::session::{Outbound, Phase, Session};

fn join_text(name: &str, room: &str) -> String {
    format!("{{\"username\":\"{}\",\"message\":\"\",\"channel\":\"{}\",\"message_type\":\"join\"}}", name, room)
}

fn joined(registry: &mut Registry, name: &str, room: &str) -> Session {
    let mut session = Session::new();
    let text = join_text(name, room);
    assert!(session.handshake(registry, Some(&text)).is_ok());
    session
}

fn outbox(session: &Session, registry: &mut Registry) -> Vec<String> {
    let mut sent = Vec::new();
    loop {
        match session.next_outbound(registry) {
            Outbound::Send(text) => sent.push(text),
            Outbound::Idle => return sent,
            Outbound::Disconnect => panic!("the session was told to disconnect"),
        }
    }
}

fn wire(sender: &str, body_json: &str, room: &str, kind_json: &str) -> String {
    format!(
        "{{\"username\":\"{}\",\"message\":{},\"channel\":\"{}\",\"message_type\":{}}}",
        sender, body_json, room, kind_json
    )
}

fn system(body: &str, room: &str) -> String {
    wire("System", &format!("\"{}\"", body), room, "\"system\"")
}

fn snapshot(listing_json: &str, room: &str) -> String {
    wire("System", listing_json, room, "\"user_list\"")
}

fn sorted(mut names: Vec<String>) -> Vec<String> {
    names.sort();
    names
}

#[test]
fn a_new_session_awaits_its_join() {
    let session = Session::new();
    assert_eq!(session.phase(), Phase::AwaitingJoin);
    assert_eq!(session.name(), "");
    assert_eq!(session.room(), "");
}

#[test]
fn handshake_joins_the_room_asked_for() {
    let mut registry = Registry::new();
    let mut session = Session::new();
    let roster = session.handshake(&mut registry, Some(&join_text("alice", "general")));
    assert_eq!(roster, Ok(vec!["alice".to_string()]));
    assert_eq!(session.phase(), Phase::Active);
    assert_eq!(session.name(), "alice");
    assert_eq!(session.room(), "general");
    assert_eq!(session.slot(), 0);
    assert_eq!(session.receiver(), 0);
    assert_eq!(registry.room_names(), vec!["general".to_string()]);
    assert_eq!(registry.roster(0), Some(vec!["alice".to_string()]));
}

#[test]
fn handshake_needs_no_message_member() {
    let mut registry = Registry::new();
    let mut session = Session::new();
    let roster = session.handshake(&mut registry, Some(r#"{"username":"alice","channel":"general"}"#));
    assert_eq!(roster, Ok(vec!["alice".to_string()]));
    assert_eq!(session.phase(), Phase::Active);
}

#[test]
fn scenario_two_sessions_in_one_room() {
    let mut registry = Registry::new();

    let mut a = Session::new();
    let roster = a.handshake(&mut registry, Some(&join_text("alice", "general")));
    assert_eq!(roster, Ok(vec!["alice".to_string()]));
    assert_eq!(registry.room_names(), vec!["general".to_string()]);
    assert_eq!(registry.roster(a.slot()), Some(vec!["alice".to_string()]));
    assert_eq!(
        outbox(&a, &mut registry),
        vec![system("alice joined general", "general"), snapshot("\"[\\\"alice\\\"]\"", "general")]
    );

    let mut b = Session::new();
    let roster = b.handshake(&mut registry, Some(&join_text("bob", "general"))).unwrap();
    assert_eq!(sorted(roster.clone()), vec!["alice".to_string(), "bob".to_string()]);
    assert_eq!(b.slot(), a.slot());
    assert_eq!(registry.room_names(), vec!["general".to_string()]);
    assert_eq!(sorted(registry.roster(a.slot()).unwrap()), vec!["alice".to_string(), "bob".to_string()]);
    let listing = format!("\"[\\\"{}\\\",\\\"{}\\\"]\"", roster[0], roster[1]);
    let arrival = vec![system("bob joined general", "general"), snapshot(&listing, "general")];
    assert_eq!(outbox(&a, &mut registry), arrival);
    assert_eq!(outbox(&b, &mut registry), arrival);

    a.on_text(&mut registry, "hi");
    let hi = vec![wire("alice", "\"hi\"", "general", "null")];
    assert_eq!(outbox(&a, &mut registry), hi);
    assert_eq!(outbox(&b, &mut registry), hi);
    assert_eq!(
        decode(&hi[0]),
        Ok(Envelope { sender: "alice".to_string(), body: "hi".to_string(), room: "general".to_string(), kind: None })
    );

    assert_eq!(b.close(&mut registry), Some(vec!["alice".to_string()]));
    assert_eq!(b.phase(), Phase::Closed);
    assert_eq!(registry.roster(a.slot()), Some(vec!["alice".to_string()]));
    assert_eq!(
        outbox(&a, &mut registry),
        vec![system("bob left general", "general"), snapshot("\"[\\\"alice\\\"]\"", "general")]
    );
    assert_eq!(b.next_outbound(&mut registry), Outbound::Disconnect);
}

#[test]
fn join_then_leave_is_not_in_the_final_snapshot() {
    let mut registry = Registry::new();
    let watcher = joined(&mut registry, "carol", "lounge");
    let mut alice = joined(&mut registry, "alice", "lounge");
    outbox(&watcher, &mut registry);
    let roster = alice.close(&mut registry).unwrap();
    assert!(!roster.contains(&"alice".to_string()));
    let sent = outbox(&watcher, &mut registry);
    let last = decode(sent.last().unwrap()).unwrap();
    assert_eq!(last.kind, Some("user_list".to_string()));
    assert_eq!(last.room, "lounge");
    assert_eq!(last.body, "[\"carol\"]");
    assert_eq!(registry.roster(watcher.slot()), Some(vec!["carol".to_string()]));
}

#[test]
fn a_room_of_one_announces_an_empty_roster_when_left() {
    let mut registry = Registry::new();
    let mut alice = joined(&mut registry, "alice", "solo");
    assert_eq!(alice.close(&mut registry), Some(vec![]));
    assert_eq!(registry.roster(0), Some(vec![]));
    assert_eq!(registry.room_names(), vec!["solo".to_string()]);
}

#[test]
fn a_malformed_first_message_is_rejected_without_side_effects() {
    let mut registry = Registry::new();
    let resident = joined(&mut registry, "alice", "general");
    outbox(&resident, &mut registry);

    let mut session = Session::new();
    assert_eq!(session.handshake(&mut registry, Some("\u{1}\u{2} not json")), Err(ProtocolError::NotStructured));
    assert_eq!(session.phase(), Phase::Closed);
    assert_eq!(registry.room_names(), vec!["general".to_string()]);
    assert_eq!(registry.roster(0), Some(vec!["alice".to_string()]));
    assert_eq!(outbox(&resident, &mut registry), Vec::<String>::new());
    assert_eq!(session.next_outbound(&mut registry), Outbound::Disconnect);
    assert_eq!(registry.receive(0, 1), Delivery::Closed);
}

#[test]
fn a_rejected_handshake_creates_no_room() {
    let mut registry = Registry::new();
    let cases: Vec<(Option<&str>, ProtocolError)> = vec![
        (None, ProtocolError::NotStructured),
        (Some("hello"), ProtocolError::NotStructured),
        (Some("[1,2,3]"), ProtocolError::NotStructured),
        (Some(r#"{"channel":"general"}"#), ProtocolError::NoName),
        (Some(r#"{"username":"alice"}"#), ProtocolError::NoRoom),
        (Some(r#"{"username":"alice","channel":"general","message_type":1}"#), ProtocolError::BadKind),
        (Some(r#"{"username":"alice","channel":""}"#), ProtocolError::EmptyRoom),
    ];
    for (first, error) in cases {
        let mut session = Session::new();
        assert_eq!(session.handshake(&mut registry, first), Err(error));
        assert_eq!(session.phase(), Phase::Closed);
        assert_eq!(registry.room_names(), Vec::<String>::new());
    }
}

#[test]
fn a_rejected_session_stays_closed() {
    let mut registry = Registry::new();
    let mut session = Session::new();
    assert_eq!(session.handshake(&mut registry, Some("nope")), Err(ProtocolError::NotStructured));
    assert_eq!(
        session.handshake(&mut registry, Some(&join_text("alice", "general"))),
        Err(ProtocolError::OutOfSequence)
    );
    assert_eq!(session.phase(), Phase::Closed);
    session.on_text(&mut registry, "hi");
    assert_eq!(session.close(&mut registry), None);
    assert_eq!(registry.room_names(), Vec::<String>::new());
}

#[test]
fn a_second_handshake_is_out_of_sequence() {
    let mut registry = Registry::new();
    let mut session = joined(&mut registry, "alice", "general");
    outbox(&session, &mut registry);
    assert_eq!(
        session.handshake(&mut registry, Some(&join_text("alice", "other"))),
        Err(ProtocolError::OutOfSequence)
    );
    assert_eq!(session.phase(), Phase::Active);
    assert_eq!(session.room(), "general");
    assert_eq!(registry.room_names(), vec!["general".to_string()]);
    assert_eq!(outbox(&session, &mut registry), Vec::<String>::new());
}

#[test]
fn accept_takes_a_decoded_request() {
    let mut registry = Registry::new();
    let mut session = Session::new();
    let request = Ok(JoinRequest { name: "alice".to_string(), room: "general".to_string() });
    assert_eq!(session.accept(&mut registry, request), Ok(vec!["alice".to_string()]));
    assert_eq!(session.phase(), Phase::Active);

    let mut refused = Session::new();
    assert_eq!(refused.accept(&mut registry, Err(ProtocolError::NoRoom)), Err(ProtocolError::NoRoom));
    assert_eq!(refused.phase(), Phase::Closed);

    let mut nameless_room = Session::new();
    let request = Ok(JoinRequest { name: "bob".to_string(), room: "".to_string() });
    assert_eq!(nameless_room.accept(&mut registry, request), Err(ProtocolError::EmptyRoom));
    assert_eq!(registry.room_names(), vec!["general".to_string()]);
    assert_eq!(registry.roster(0), Some(vec!["alice".to_string()]));
}

#[test]
fn text_that_is_no_envelope_is_relayed_as_the_sessions_own_chat() {
    let mut registry = Registry::new();
    let a = joined(&mut registry, "alice", "general");
    let b = joined(&mut registry, "bob", "general");
    outbox(&a, &mut registry);
    outbox(&b, &mut registry);
    for raw in ["hi", "  spaced out  ", "{\"username\":\"mallory\"}", "[1,2]", "say \"what\"\n", ""] {
        a.on_text(&mut registry, raw);
        let sent = outbox(&b, &mut registry);
        assert_eq!(sent.len(), 1);
        assert_eq!(
            decode(&sent[0]),
            Ok(Envelope {
                sender: "alice".to_string(),
                body: raw.to_string(),
                room: "general".to_string(),
                kind: None
            })
        );
        assert_eq!(outbox(&a, &mut registry), sent);
    }
}

#[test]
fn text_that_is_an_envelope_is_relayed_as_it_is() {
    let mut registry = Registry::new();
    let a = joined(&mut registry, "alice", "general");
    let b = joined(&mut registry, "bob", "general");
    outbox(&a, &mut registry);
    outbox(&b, &mut registry);
    a.on_text(&mut registry, r#"{"channel":"general","message":"hello","username":"alice","message_type":"text"}"#);
    a.on_text(&mut registry, r#"{"username":"someone","message":"else","channel":"elsewhere"}"#);
    let expected = vec![
        wire("alice", "\"hello\"", "general", "\"text\""),
        wire("someone", "\"else\"", "elsewhere", "null"),
    ];
    assert_eq!(outbox(&b, &mut registry), expected);
    assert_eq!(outbox(&a, &mut registry), expected);
    assert_eq!(registry.room_names(), vec!["general".to_string()]);
}

#[test]
fn relay_takes_the_decoding_as_given() {
    let mut registry = Registry::new();
    let a = joined(&mut registry, "alice", "general");
    outbox(&a, &mut registry);
    a.relay(&mut registry, "raw text", Err(DecodeError::NoBody));
    a.relay(&mut registry, "ignored", Ok(Envelope::chat("bob", "decoded", "general")));
    assert_eq!(
        outbox(&a, &mut registry),
        vec![wire("alice", "\"raw text\"", "general", "null"), wire("bob", "\"decoded\"", "general", "null")]
    );
}

#[test]
fn text_before_the_join_is_not_relayed() {
    let mut registry = Registry::new();
    let resident = joined(&mut registry, "alice", "general");
    outbox(&resident, &mut registry);
    let waiting = Session::new();
    waiting.on_text(&mut registry, "hi");
    assert_eq!(waiting.next_outbound(&mut registry), Outbound::Idle);
    assert_eq!(outbox(&resident, &mut registry), Vec::<String>::new());
}

#[test]
fn closing_twice_tears_down_once() {
    let mut registry = Registry::new();
    let watcher = joined(&mut registry, "carol", "general");
    let mut alice = joined(&mut registry, "alice", "general");
    outbox(&watcher, &mut registry);
    assert_eq!(alice.close(&mut registry), Some(vec!["carol".to_string()]));
    assert_eq!(alice.close(&mut registry), None);
    assert_eq!(alice.phase(), Phase::Closed);
    assert_eq!(
        outbox(&watcher, &mut registry),
        vec![system("alice left general", "general"), snapshot("\"[\\\"carol\\\"]\"", "general")]
    );
    assert_eq!(registry.roster(watcher.slot()), Some(vec!["carol".to_string()]));
}

#[test]
fn a_second_close_does_not_remove_a_name_that_came_back() {
    let mut registry = Registry::new();
    let mut first = joined(&mut registry, "alice", "general");
    assert_eq!(first.close(&mut registry), Some(vec![]));
    let again = joined(&mut registry, "alice", "general");
    outbox(&again, &mut registry);
    assert_eq!(first.close(&mut registry), None);
    assert_eq!(registry.roster(again.slot()), Some(vec!["alice".to_string()]));
    assert_eq!(outbox(&again, &mut registry), Vec::<String>::new());
}

#[test]
fn closing_before_the_join_changes_nothing() {
    let mut registry = Registry::new();
    let resident = joined(&mut registry, "alice", "general");
    outbox(&resident, &mut registry);
    let mut session = Session::new();
    assert_eq!(session.close(&mut registry), None);
    assert_eq!(session.phase(), Phase::Closed);
    assert_eq!(outbox(&resident, &mut registry), Vec::<String>::new());
    assert_eq!(registry.roster(0), Some(vec!["alice".to_string()]));
}

#[test]
fn a_closed_session_publishes_nothing() {
    let mut registry = Registry::new();
    let watcher = joined(&mut registry, "carol", "general");
    let mut alice = joined(&mut registry, "alice", "general");
    alice.close(&mut registry);
    outbox(&watcher, &mut registry);
    alice.on_text(&mut registry, "still here?");
    alice.relay(&mut registry, "x", Ok(Envelope::chat("alice", "x", "general")));
    assert_eq!(outbox(&watcher, &mut registry), Vec::<String>::new());
    assert_eq!(alice.next_outbound(&mut registry), Outbound::Disconnect);
}

#[test]
fn presence_is_by_name_not_by_session() {
    let mut registry = Registry::new();
    let mut one = joined(&mut registry, "alice", "general");
    let other = joined(&mut registry, "alice", "general");
    assert_eq!(registry.roster(0), Some(vec!["alice".to_string()]));
    assert_eq!(one.close(&mut registry), Some(vec![]));
    assert_eq!(registry.roster(0), Some(vec![]));
    assert_eq!(other.phase(), Phase::Active);
}

#[test]
fn a_session_that_falls_behind_is_disconnected() {
    let mut registry = Registry::new();
    let slow = joined(&mut registry, "slow", "general");
    let fast = joined(&mut registry, "fast", "general");
    outbox(&slow, &mut registry);
    outbox(&fast, &mut registry);
    for n in 0..BACKLOG_CAPACITY {
        fast.on_text(&mut registry, &format!("message {}", n));
        assert_eq!(outbox(&fast, &mut registry).len(), 1);
    }
    assert_eq!(outbox(&slow, &mut registry).len(), BACKLOG_CAPACITY);
    for n in 0..(BACKLOG_CAPACITY + 1) {
        fast.on_text(&mut registry, &format!("again {}", n));
        assert_eq!(outbox(&fast, &mut registry).len(), 1);
    }
    assert_eq!(slow.next_outbound(&mut registry), Outbound::Disconnect);
    assert_eq!(slow.phase(), Phase::Active);
}

#[test]
fn sessions_in_different_rooms_do_not_hear_each_other() {
    let mut registry = Registry::new();
    let a = joined(&mut registry, "alice", "alpha");
    let b = joined(&mut registry, "bob", "beta");
    assert_eq!((a.slot(), b.slot()), (0, 1));
    outbox(&a, &mut registry);
    outbox(&b, &mut registry);
    a.on_text(&mut registry, "hi");
    assert_eq!(outbox(&b, &mut registry), Vec::<String>::new());
    assert_eq!(outbox(&a, &mut registry), vec![wire("alice", "\"hi\"", "alpha", "null")]);
}
