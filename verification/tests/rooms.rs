use chat_relay::bus::Delivery;
use chat_relay::envelope::Envelope;
use chat_relay::presence::PresenceSet;
use chat_relay::registry::Registry;
use chat_relay::room::RoomChannel;

fn sorted(mut names: Vec<String>) -> Vec<String> {
    names.sort();
    names
}

fn names(list: &[&str]) -> Vec<String> {
    list.iter().map(|s| s.to_string()).collect()
}

fn system(body: &str, room: &str, kind: &str) -> Envelope {
    Envelope {
        sender: "System".to_string(),
        body: body.to_string(),
        room: room.to_string(),
        kind: Some(kind.to_string()),
    }
}

fn drain_room(room: &mut RoomChannel, id: usize) -> Vec<Envelope> {
    let mut got = Vec::new();
    loop {
        match room.receive(id) {
            Delivery::Envelope(e) => got.push(e),
            Delivery::Empty => return got,
            other => panic!("subscriber {} got {:?}", id, other),
        }
    }
}

#[test]
fn envelope_constructors_fill_the_fields() {
    assert_eq!(
        Envelope::chat("alice", "hi", "general"),
        Envelope { sender: "alice".to_string(), body: "hi".to_string(), room: "general".to_string(), kind: None }
    );
    assert_eq!(Envelope::joined("alice", "general"), system("alice joined general", "general", "system"));
    assert_eq!(Envelope::left("bob", "lobby"), system("bob left lobby", "lobby", "system"));
    assert_eq!(
        Envelope::snapshot("[\"alice\"]".to_string(), "general"),
        system("[\"alice\"]", "general", "user_list")
    );
}

#[test]
fn envelope_clone_is_equal() {
    let e = system("alice joined general", "general", "system");
    assert_eq!(e.clone(), e);
    let plain = Envelope::chat("a", "b", "c");
    assert_eq!(plain.clone(), plain);
}

#[test]
fn presence_starts_empty() {
    assert_eq!(PresenceSet::new().roster(), Vec::<String>::new());
}

#[test]
fn presence_holds_each_name_once() {
    let mut presence = PresenceSet::new();
    presence.insert("alice");
    presence.insert("bob");
    presence.insert("alice");
    assert_eq!(sorted(presence.roster()), names(&["alice", "bob"]));
}

#[test]
fn presence_remove_drops_the_name() {
    let mut presence = PresenceSet::new();
    presence.insert("alice");
    presence.insert("bob");
    presence.remove("alice");
    assert_eq!(presence.roster(), names(&["bob"]));
    presence.remove("carol");
    assert_eq!(presence.roster(), names(&["bob"]));
    presence.remove("bob");
    assert_eq!(presence.roster(), Vec::<String>::new());
}

#[test]
fn presence_does_not_count_joins() {
    let mut presence = PresenceSet::new();
    presence.insert("alice");
    presence.insert("alice");
    presence.remove("alice");
    assert_eq!(presence.roster(), Vec::<String>::new());
}

#[test]
fn presence_tells_names_apart_exactly() {
    let mut presence = PresenceSet::new();
    presence.insert("alice");
    presence.insert("Alice");
    presence.insert("alice ");
    presence.insert("");
    assert_eq!(sorted(presence.roster()), names(&["", "Alice", "alice", "alice "]));
}

#[test]
fn a_new_room_is_empty() {
    let mut room = RoomChannel::new("general");
    assert_eq!(room.name(), "general");
    assert_eq!(room.roster(), Vec::<String>::new());
    assert_eq!(room.receive(0), Delivery::Closed);
}

#[test]
fn room_join_announces_to_the_joiner() {
    let mut room = RoomChannel::new("general");
    let (id, roster) = room.join("alice");
    assert_eq!(id, 0);
    assert_eq!(roster, names(&["alice"]));
    assert_eq!(room.roster(), names(&["alice"]));
    assert_eq!(
        drain_room(&mut room, id),
        vec![
            system("alice joined general", "general", "system"),
            system("[\"alice\"]", "general", "user_list"),
        ]
    );
}

#[test]
fn room_part_announces_to_those_who_stay() {
    let mut room = RoomChannel::new("general");
    let (alice, _) = room.join("alice");
    let (bob, _) = room.join("bob");
    drain_room(&mut room, alice);
    drain_room(&mut room, bob);
    let roster = room.part(bob, "bob");
    assert_eq!(roster, names(&["alice"]));
    assert_eq!(room.receive(bob), Delivery::Closed);
    assert_eq!(
        drain_room(&mut room, alice),
        vec![system("bob left general", "general", "system"), system("[\"alice\"]", "general", "user_list")]
    );
}

#[test]
fn room_enter_and_leave_are_silent() {
    let mut room = RoomChannel::new("general");
    let id = room.subscribe();
    room.enter("alice");
    room.enter("bob");
    room.leave("alice");
    assert_eq!(room.roster(), names(&["bob"]));
    assert_eq!(room.receive(id), Delivery::Empty);
}

#[test]
fn room_announce_presence_publishes_the_roster() {
    let mut room = RoomChannel::new("lobby");
    let id = room.subscribe();
    assert_eq!(room.announce_presence(), Vec::<String>::new());
    room.enter("alice");
    assert_eq!(room.announce_presence(), names(&["alice"]));
    assert_eq!(
        drain_room(&mut room, id),
        vec![system("[]", "lobby", "user_list"), system("[\"alice\"]", "lobby", "user_list")]
    );
}

#[test]
fn room_publish_reaches_subscribers_only_after_they_subscribed() {
    let mut room = RoomChannel::new("general");
    room.publish(Envelope::chat("alice", "early", "general"));
    let id = room.subscribe();
    room.publish(Envelope::chat("alice", "late", "general"));
    assert_eq!(drain_room(&mut room, id), vec![Envelope::chat("alice", "late", "general")]);
    room.unsubscribe(id);
    assert_eq!(room.receive(id), Delivery::Closed);
}

#[test]
fn registry_starts_without_rooms() {
    let registry = Registry::new();
    assert_eq!(registry.room_names(), Vec::<String>::new());
    assert_eq!(registry.roster(0), None);
}

#[test]
fn resolve_creates_a_room_once() {
    let mut registry = Registry::new();
    let first = registry.resolve("alpha");
    let second = registry.resolve("alpha");
    assert_eq!(first, second);
    assert_eq!(registry.room_names(), names(&["alpha"]));
}

#[test]
fn resolve_hands_out_slots_in_creation_order() {
    let mut registry = Registry::new();
    assert_eq!(registry.resolve("alpha"), 0);
    assert_eq!(registry.resolve("beta"), 1);
    assert_eq!(registry.resolve("alpha"), 0);
    assert_eq!(registry.resolve("gamma"), 2);
    assert_eq!(registry.resolve("beta"), 1);
    assert_eq!(registry.room_names(), names(&["alpha", "beta", "gamma"]));
}

#[test]
fn resolve_tells_names_apart_exactly() {
    let mut registry = Registry::new();
    let a = registry.resolve("alpha");
    let b = registry.resolve("Alpha");
    let c = registry.resolve("alpha ");
    assert_eq!((a, b, c), (0, 1, 2));
}

#[test]
fn two_resolvers_share_one_room() {
    let mut registry = Registry::new();
    let one = registry.resolve("alpha");
    let (receiver, _) = registry.join(one, "alice").unwrap();
    while registry.receive(one, receiver) != Delivery::Empty {}
    let other = registry.resolve("alpha");
    registry.publish(other, Envelope::chat("bob", "hello", "alpha"));
    assert_eq!(registry.receive(one, receiver), Delivery::Envelope(Envelope::chat("bob", "hello", "alpha")));
}

#[test]
fn rooms_stay_listed_when_empty() {
    let mut registry = Registry::new();
    let slot = registry.resolve("alpha");
    let (receiver, _) = registry.join(slot, "alice").unwrap();
    registry.part(slot, receiver, "alice");
    assert_eq!(registry.roster(slot), Some(vec![]));
    assert_eq!(registry.room_names(), names(&["alpha"]));
}

#[test]
fn rooms_do_not_hear_each_other() {
    let mut registry = Registry::new();
    let alpha = registry.resolve("alpha");
    let beta = registry.resolve("beta");
    let (in_alpha, _) = registry.join(alpha, "alice").unwrap();
    let (in_beta, _) = registry.join(beta, "bob").unwrap();
    while registry.receive(alpha, in_alpha) != Delivery::Empty {}
    while registry.receive(beta, in_beta) != Delivery::Empty {}
    registry.publish(alpha, Envelope::chat("alice", "hi", "alpha"));
    assert_eq!(registry.receive(beta, in_beta), Delivery::Empty);
    assert_eq!(registry.receive(alpha, in_alpha), Delivery::Envelope(Envelope::chat("alice", "hi", "alpha")));
    assert_eq!(registry.roster(alpha), Some(names(&["alice"])));
    assert_eq!(registry.roster(beta), Some(names(&["bob"])));
}

#[test]
fn a_slot_that_is_no_room_is_left_alone() {
    let mut registry = Registry::new();
    let slot = registry.resolve("alpha");
    let (receiver, _) = registry.join(slot, "alice").unwrap();
    while registry.receive(slot, receiver) != Delivery::Empty {}
    registry.publish(slot + 1, Envelope::chat("x", "y", "z"));
    assert_eq!(registry.receive(slot + 1, 0), Delivery::Closed);
    assert_eq!(registry.join(slot + 1, "bob"), None);
    assert_eq!(registry.part(slot + 1, 0, "alice"), None);
    assert_eq!(registry.roster(slot + 1), None);
    assert_eq!(registry.receive(slot, receiver), Delivery::Empty);
    assert_eq!(registry.roster(slot), Some(names(&["alice"])));
    assert_eq!(registry.room_names(), names(&["alpha"]));
}

#[test]
fn registry_join_and_part_report_the_roster() {
    let mut registry = Registry::new();
    let slot = registry.resolve("general");
    let (alice, roster) = registry.join(slot, "alice").unwrap();
    assert_eq!((alice, roster), (0, names(&["alice"])));
    let (bob, roster) = registry.join(slot, "bob").unwrap();
    assert_eq!(bob, 1);
    assert_eq!(sorted(roster), names(&["alice", "bob"]));
    assert_eq!(registry.part(slot, alice, "alice"), Some(names(&["bob"])));
    assert_eq!(registry.part(slot, bob, "bob"), Some(vec![]));
}
