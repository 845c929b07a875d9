//! The presence set of a room: the display names currently joined.
//!
//! Presence is keyed by display name alone. Two sessions that use one name in
//! one room share a single entry: a second join changes nothing, and the first
//! of them to leave removes the name for both.

use dashmap::DashMap;
use vstd::prelude::*;

verus! {

/// `dashmap::DashMap`, a value that the verifier carries without looking
/// inside. What a map holds is named for each kind of map that the relay
/// keeps.
#[verifier::external_type_specification]
#[verifier::external_body]
#[verifier::reject_recursive_types(K)]
#[verifier::reject_recursive_types(V)]
#[verifier::reject_recursive_types(S)]
pub struct ExDashMap<K, V, S>(DashMap<K, V, S>);

/// The display names that a map of users holds as its keys.
pub uninterp spec fn user_names(users: DashMap<String, ()>) -> Set<Seq<char>>;

/// `DashMap::new`: a map without keys.
#[verifier::external_body]
fn users_new() -> (users: DashMap<String, ()>)
    ensures
        user_names(users) == Set::<Seq<char>>::empty(),
{
    DashMap::new()
}

/// `DashMap::insert`: afterwards the key is in the map, and every other key is
/// in it exactly if it was before.
#[verifier::external_body]
fn users_insert(users: &mut DashMap<String, ()>, name: String)
    ensures
        user_names(*final(users)) == user_names(*old(users)).insert(name@),
{
    users.insert(name, ());
}

/// `DashMap::remove`: afterwards the key is not in the map, and every other
/// key is in it exactly if it was before.
#[verifier::external_body]
fn users_remove(users: &mut DashMap<String, ()>, name: &str)
    ensures
        user_names(*final(users)) == user_names(*old(users)).remove(name@),
{
    users.remove(name);
}

/// `DashMap::iter`, each entry mapped to a copy of its key: every key of the
/// map once, in the order in which the map happens to be walked.
#[verifier::external_body]
fn users_keys(users: &DashMap<String, ()>) -> (names: Vec<String>)
    ensures
        is_roster(names.deep_view(), user_names(*users)),
{
    users.iter().map(|entry| entry.key().clone()).collect()
}

/// `roster` lists the names of `members`, each exactly once, in some order.
pub open spec fn is_roster(roster: Seq<Seq<char>>, members: Set<Seq<char>>) -> bool {
    &&& roster.no_duplicates()
    &&& forall|name: Seq<char>| roster.contains(name) <==> members.contains(name)
}

/// The display names currently attributed to one room.
pub struct PresenceSet {
    users: DashMap<String, ()>,
}

impl View for PresenceSet {
    type V = Set<Seq<char>>;

    closed spec fn view(&self) -> Set<Seq<char>> {
        user_names(self.users)
    }
}

impl PresenceSet {
    /// The empty presence set of a room nobody has joined yet.
    pub fn new() -> (presence: PresenceSet)
        ensures
            presence@ == Set::<Seq<char>>::empty(),
    {
        PresenceSet { users: users_new() }
    }

    /// Marks `name` as present. A name that is present already stays present
    /// once.
    pub fn insert(&mut self, name: &str)
        ensures
            final(self)@ == old(self)@.insert(name@),
    {
        users_insert(&mut self.users, name.to_owned());
    }

    /// Marks `name` as absent, whoever inserted it and however often.
    pub fn remove(&mut self, name: &str)
        ensures
            final(self)@ == old(self)@.remove(name@),
    {
        users_remove(&mut self.users, name);
    }

    /// The names present, each once, in no particular order.
    pub fn roster(&self) -> (names: Vec<String>)
        ensures
            is_roster(names.deep_view(), self@),
    {
        users_keys(&self.users)
    }
}

} // verus!
