//! The accounts of the relay: who may register, who may log in, and whom a
//! token speaks for.
//!
//! Users live in an arena in the order of their registration and are found
//! by name and by id through two indexes. Hashing and checking a password is
//! left to `bcrypt`, reading an id to `uuid`. The id of a new user and the
//! time are read by the caller, who also issues and opens the tokens.

use crate::index::{index_entries, index_get, index_insert, index_new, index_or_insert};
use dashmap::DashMap;
use uuid::Uuid;
use vstd::prelude::*;
use vstd::string::StringExecFns;
use vstd::utf8::encode_utf8;

verus! {

/// The least length of a password, in bytes.
pub const MIN_PASSWORD_BYTES: usize = 6;

/// How long a token is good for, in seconds: one day.
pub const TOKEN_LIFETIME_SECONDS: i64 = 86_400;

/// One registered user.
#[derive(Debug, PartialEq, Eq)]
pub struct User {
    /// The user's id, a UUID in its hyphenated form.
    pub id: String,
    pub username: String,
    pub email: String,
    pub password_hash: String,
    /// When the user registered, in seconds since the Unix epoch.
    pub created_at: i64,
}

/// The mathematical value of a [`User`].
pub struct UserView {
    pub id: Seq<char>,
    pub username: Seq<char>,
    pub email: Seq<char>,
    pub password_hash: Seq<char>,
    pub created_at: int,
}

impl View for User {
    type V = UserView;

    open spec fn view(&self) -> UserView {
        UserView {
            id: self.id@,
            username: self.username@,
            email: self.email@,
            password_hash: self.password_hash@,
            created_at: self.created_at as int,
        }
    }
}

impl Clone for User {
    fn clone(&self) -> (copy: User)
        ensures
            copy@ == self@,
    {
        User {
            id: self.id.clone(),
            username: self.username.clone(),
            email: self.email.clone(),
            password_hash: self.password_hash.clone(),
            created_at: self.created_at,
        }
    }
}

/// Why a request about an account is refused.
#[derive(Debug, Clone, Copy, PartialEq, Eq, Structural)]
pub enum AuthError {
    /// The name or the email is blank, or the password too short.
    InvalidRegistration,
    /// The name is registered already.
    UsernameTaken,
    /// The password could not be hashed.
    HashFailed,
    /// No token could be issued.
    TokenFailed,
    /// No such user, or not the user's password.
    BadCredentials,
    /// The request carries no token.
    TokenRequired,
    /// The token is not valid, or names no user id.
    InvalidToken,
    /// The token names a user that is not registered.
    UnknownUser,
}

/// The HTTP status that answers a refusal.
pub open spec fn status_of(e: AuthError) -> u16 {
    match e {
        AuthError::InvalidRegistration => 400,
        AuthError::UsernameTaken => 409,
        AuthError::HashFailed => 500,
        AuthError::TokenFailed => 500,
        AuthError::BadCredentials => 401,
        AuthError::TokenRequired => 400,
        AuthError::InvalidToken => 401,
        AuthError::UnknownUser => 401,
    }
}

/// The sentence that answers a refusal.
pub open spec fn message_of(e: AuthError) -> Seq<char> {
    match e {
        AuthError::InvalidRegistration => "Username and email are required, password must be at least 6 characters"@,
        AuthError::UsernameTaken => "Username already exists"@,
        AuthError::HashFailed => "Failed to hash password"@,
        AuthError::TokenFailed => "Failed to generate token"@,
        AuthError::BadCredentials => "Invalid username or password"@,
        AuthError::TokenRequired => "Token is required"@,
        AuthError::InvalidToken => "Invalid token"@,
        AuthError::UnknownUser => "User not found"@,
    }
}

impl AuthError {
    /// The HTTP status that answers the refusal.
    pub fn status(&self) -> (code: u16)
        ensures
            code == status_of(*self),
    {
        match self {
            AuthError::InvalidRegistration => 400,
            AuthError::UsernameTaken => 409,
            AuthError::HashFailed => 500,
            AuthError::TokenFailed => 500,
            AuthError::BadCredentials => 401,
            AuthError::TokenRequired => 400,
            AuthError::InvalidToken => 401,
            AuthError::UnknownUser => 401,
        }
    }

    /// The sentence that answers the refusal.
    pub fn message(&self) -> (text: String)
        ensures
            text@ == message_of(*self),
    {
        match self {
            AuthError::InvalidRegistration => String::from_str(
                "Username and email are required, password must be at least 6 characters",
            ),
            AuthError::UsernameTaken => String::from_str("Username already exists"),
            AuthError::HashFailed => String::from_str("Failed to hash password"),
            AuthError::TokenFailed => String::from_str("Failed to generate token"),
            AuthError::BadCredentials => String::from_str("Invalid username or password"),
            AuthError::TokenRequired => String::from_str("Token is required"),
            AuthError::InvalidToken => String::from_str("Invalid token"),
            AuthError::UnknownUser => String::from_str("User not found"),
        }
    }
}

/// `text` without the white space at its start and at its end, as
/// `str::trim` cuts it.
pub uninterp spec fn trimmed(text: Seq<char>) -> Seq<char>;

/// Whether `bcrypt` finds that `hash` is a hash of `password`; false where
/// `hash` is no bcrypt hash at all.
pub uninterp spec fn password_matches(password: Seq<char>, hash: Seq<char>) -> bool;

/// The hyphenated form of the UUID that `uuid` reads from `text`, or `None`
/// where it reads none.
pub uninterp spec fn canonical_id(text: Seq<char>) -> Option<Seq<char>>;

/// `str::trim`: the slice without leading and trailing white space.
#[verifier::external_body]
fn trim(text: &str) -> (cut: &str)
    ensures
        cut@ == trimmed(text@),
{
    text.trim()
}

/// `bcrypt::hash` at `bcrypt::DEFAULT_COST`: a hash of the password under a
/// salt drawn at random, or `None` where `bcrypt` reports an error.
#[verifier::external_body]
fn hash_password(password: &str) -> (hash: Option<String>) {
    bcrypt::hash(password, bcrypt::DEFAULT_COST).ok()
}

/// `bcrypt::verify`, an error taken as no match.
#[verifier::external_body]
fn verify_password(password: &str, hash: &str) -> (matches: bool)
    ensures
        matches == password_matches(password@, hash@),
{
    bcrypt::verify(password, hash).unwrap_or(false)
}

/// `Uuid::parse_str`, the UUID written back in its hyphenated form.
#[verifier::external_body]
fn parse_id(text: &str) -> (id: Option<String>)
    ensures
        match id {
            Some(canonical) => canonical_id(text@) == Some(canonical@),
            None => canonical_id(text@) is None,
        },
{
    match Uuid::parse_str(text) {
        Ok(id) => Some(id.to_string()),
        Err(_) => None,
    }
}

/// A registration is acceptable: name and email are not blank, and the
/// password has at least [`MIN_PASSWORD_BYTES`] bytes.
pub open spec fn registration_is_valid(username: Seq<char>, email: Seq<char>, password: Seq<char>) -> bool {
    &&& trimmed(username).len() > 0
    &&& trimmed(email).len() > 0
    &&& encode_utf8(password).len() >= MIN_PASSWORD_BYTES
}

/// The expiry of a token issued at `now`: [`TOKEN_LIFETIME_SECONDS`] later,
/// and within what `usize` holds.
pub open spec fn expiry_of(now: int) -> int {
    if now + TOKEN_LIFETIME_SECONDS < 0 {
        0
    } else if now + TOKEN_LIFETIME_SECONDS > usize::MAX {
        usize::MAX as int
    } else {
        now + TOKEN_LIFETIME_SECONDS
    }
}

/// The answer to a login of the user found under the name given, where
/// `matches` says whether the password is the user's.
pub open spec fn login_outcome(found: Option<UserView>, matches: bool) -> Result<UserView, AuthError> {
    match found {
        Some(user) => if matches {
            Ok(user)
        } else {
            Err(AuthError::BadCredentials)
        },
        None => Err(AuthError::BadCredentials),
    }
}

/// The view of an answer that carries a user.
pub open spec fn answer_view(r: Result<User, AuthError>) -> Result<UserView, AuthError> {
    match r {
        Ok(user) => Ok(user@),
        Err(e) => Err(e),
    }
}

/// The view of a user that may be missing.
pub open spec fn found_view(found: Option<User>) -> Option<UserView> {
    match found {
        Some(user) => Some(user@),
        None => None,
    }
}

/// The mathematical value of [`Accounts`]: the users in the order of their
/// registration.
pub struct AccountsView {
    pub users: Seq<UserView>,
}

impl AccountsView {
    /// No two users have one name.
    pub open spec fn wf(self) -> bool {
        forall|a: int, b: int|
            0 <= a < b < self.users.len() ==> (#[trigger] self.users[a]).username != (
            #[trigger] self.users[b]).username
    }

    /// No users.
    pub open spec fn empty() -> AccountsView {
        AccountsView { users: Seq::empty() }
    }

    /// A user is registered under `name`.
    pub open spec fn has_name(self, name: Seq<char>) -> bool {
        exists|slot: int| 0 <= slot < self.users.len() && (#[trigger] self.users[slot]).username == name
    }

    /// The user registered under `name`.
    pub open spec fn by_name(self, name: Seq<char>) -> Option<UserView> {
        if self.has_name(name) {
            Some(
                self.users[choose|slot: int|
                    0 <= slot < self.users.len() && (#[trigger] self.users[slot]).username == name],
            )
        } else {
            None
        }
    }

    /// The user with the id `id`; the one registered last, should there be
    /// two.
    pub open spec fn by_id(self, id: Seq<char>) -> Option<UserView>
        decreases self.users.len(),
    {
        if self.users.len() == 0 {
            None
        } else if self.users.last().id == id {
            Some(self.users.last())
        } else {
            AccountsView { users: self.users.drop_last() }.by_id(id)
        }
    }

    /// The accounts with `user` registered.
    pub open spec fn enroll(self, user: UserView) -> AccountsView {
        AccountsView { users: self.users.push(user) }
    }

    /// The user that a token's subject `sub` speaks for.
    pub open spec fn subject(self, id: Option<Seq<char>>) -> Result<UserView, AuthError> {
        match id {
            None => Err(AuthError::InvalidToken),
            Some(id) => match self.by_id(id) {
                Some(user) => Ok(user),
                None => Err(AuthError::UnknownUser),
            },
        }
    }
}

/// The users of an arena as mathematical values.
pub open spec fn user_views(users: Seq<User>) -> Seq<UserView> {
    users.map_values(|user: User| user@)
}

/// Says whether a registration is acceptable.
pub fn check_registration(username: &str, email: &str, password: &str) -> (ok: bool)
    ensures
        ok == registration_is_valid(username@, email@, password@),
{
    !trim(username).is_empty() && !trim(email).is_empty() && password.as_bytes().len() >= MIN_PASSWORD_BYTES
}

/// The expiry to write into a token issued at `now`, both in seconds since
/// the Unix epoch.
pub fn token_expiry(now: i64) -> (expiry: usize)
    ensures
        expiry == expiry_of(now as int),
{
    if now < -TOKEN_LIFETIME_SECONDS {
        return 0;
    }
    let later: u64 = if now < 0 {
        (now + TOKEN_LIFETIME_SECONDS) as u64
    } else {
        now as u64 + TOKEN_LIFETIME_SECONDS as u64
    };
    if later > usize::MAX as u64 {
        usize::MAX
    } else {
        later as usize
    }
}

/// Answers a login of the user found under the name given, where `matches`
/// says whether the password is the user's.
pub fn grant(found: Option<User>, matches: bool) -> (r: Result<User, AuthError>)
    ensures
        answer_view(r) == login_outcome(found_view(found), matches),
{
    match found {
        Some(user) => if matches {
            Ok(user)
        } else {
            Err(AuthError::BadCredentials)
        },
        None => Err(AuthError::BadCredentials),
    }
}

/// The registered users.
pub struct Accounts {
    by_name: DashMap<String, usize>,
    by_id: DashMap<String, usize>,
    users: Vec<User>,
}

impl View for Accounts {
    type V = AccountsView;

    closed spec fn view(&self) -> AccountsView {
        AccountsView { users: user_views(self.users@) }
    }
}

impl Accounts {
    /// The representation is consistent: the index by name holds each user's
    /// name with that user's slot and nothing else, and the index by id
    /// holds each id with the slot of the user registered last under it.
    pub closed spec fn wf(&self) -> bool {
        &&& forall|name: Seq<char>| #[trigger]
            index_entries(self.by_name).contains_key(name) ==> index_entries(self.by_name)[name]
                < self.users.len() && self.users[index_entries(self.by_name)[name] as int]@.username == name
        &&& forall|slot: int|
            0 <= slot < self.users.len() ==> index_entries(self.by_name).contains_key(
                (#[trigger] self.users[slot])@.username,
            ) && index_entries(self.by_name)[self.users[slot]@.username] == slot
        &&& forall|id: Seq<char>| #[trigger]
            index_entries(self.by_id).contains_key(id) ==> index_entries(self.by_id)[id] < self.users.len()
                && self@.by_id(id) == Some(self.users[index_entries(self.by_id)[id] as int]@)
        &&& forall|id: Seq<char>|
            !(#[trigger] index_entries(self.by_id).contains_key(id)) ==> self@.by_id(id) is None
    }

    /// Well-formed accounts have a well-formed view.
    pub proof fn lemma_view_wf(&self)
        requires
            self.wf(),
        ensures
            self@.wf(),
    {
        assert forall|a: int, b: int| 0 <= a < b < self@.users.len() implies (#[trigger] self@.users[a]).username
            != (#[trigger] self@.users[b]).username by {
            assert(index_entries(self.by_name)[self.users[a]@.username] == a);
            assert(index_entries(self.by_name)[self.users[b]@.username] == b);
        }
    }

    proof fn lemma_by_name(&self, name: Seq<char>)
        requires
            self.wf(),
        ensures
            self@.has_name(name) == index_entries(self.by_name).contains_key(name),
            self@.has_name(name) ==> self@.by_name(name) == Some(
                self.users[index_entries(self.by_name)[name] as int]@,
            ),
    {
        let entries = index_entries(self.by_name);
        if entries.contains_key(name) {
            let slot = entries[name] as int;
            assert(self@.users[slot].username == name);
        }
        if self@.has_name(name) {
            let slot = choose|slot: int|
                0 <= slot < self@.users.len() && (#[trigger] self@.users[slot]).username == name;
            assert(self@.users[slot] == self.users[slot]@);
            assert(entries[self.users[slot]@.username] == slot);
        }
    }

    /// No accounts.
    pub fn new() -> (accounts: Accounts)
        ensures
            accounts.wf(),
            accounts@ == AccountsView::empty(),
    {
        let accounts = Accounts { by_name: index_new(), by_id: index_new(), users: Vec::new() };
        assert(accounts@.users =~= Seq::empty());
        accounts
    }

    /// The user registered under `name`.
    pub fn find(&self, name: &str) -> (found: Option<User>)
        requires
            self.wf(),
        ensures
            found_view(found) == self@.by_name(name@),
    {
        proof {
            self.lemma_by_name(name@);
        }
        match index_get(&self.by_name, name) {
            Some(slot) => Some(self.users[slot].clone()),
            None => None,
        }
    }

    /// The user with the id `id`.
    pub fn find_by_id(&self, id: &str) -> (found: Option<User>)
        requires
            self.wf(),
        ensures
            found_view(found) == self@.by_id(id@),
    {
        match index_get(&self.by_id, id) {
            Some(slot) => Some(self.users[slot].clone()),
            None => None,
        }
    }

    /// Registers `user` unless its name is taken.
    pub fn enroll(&mut self, user: User) -> (r: Result<(), AuthError>)
        requires
            old(self).wf(),
        ensures
            final(self).wf(),
            match r {
                Ok(_) => !old(self)@.has_name(user@.username) && final(self)@ == old(self)@.enroll(user@),
                Err(e) => e == AuthError::UsernameTaken && old(self)@.has_name(user@.username) && final(self)@
                    == old(self)@,
            },
    {
        proof {
            self.lemma_by_name(user@.username);
        }
        let next = self.users.len();
        let slot = index_or_insert(&mut self.by_name, user.username.clone(), next);
        if slot != next {
            return Err(AuthError::UsernameTaken);
        }
        index_insert(&mut self.by_id, user.id.clone(), next);
        let ghost added = user@;
        self.users.push(user);
        proof {
            assert(self@.users =~= old(self)@.users.push(added));
            assert(self@.users.drop_last() =~= old(self)@.users);
            assert(AccountsView { users: self@.users.drop_last() } == old(self)@);
            assert forall|other: int| 0 <= other < self.users.len() implies index_entries(
                self.by_name,
            ).contains_key((#[trigger] self.users[other])@.username) && index_entries(
                self.by_name,
            )[self.users[other]@.username] == other by {
                if other < next {
                    assert(self.users[other] == old(self).users[other]);
                }
            }
            assert forall|id: Seq<char>| #[trigger]
                index_entries(self.by_id).contains_key(id) implies index_entries(self.by_id)[id]
                < self.users.len() && self@.by_id(id) == Some(
                self.users[index_entries(self.by_id)[id] as int]@,
            ) by {
                if id != added.id {
                    assert(index_entries(old(self).by_id).contains_key(id));
                    let at = index_entries(old(self).by_id)[id] as int;
                    assert(self.users[at] == old(self).users[at]);
                }
            }
            assert forall|id: Seq<char>| !(#[trigger] index_entries(self.by_id).contains_key(id)) implies self@.by_id(
                id,
            ) is None by {
                assert(!index_entries(old(self).by_id).contains_key(id));
            }
        }
        Ok(())
    }

    /// Registers a user with the id and the registration time given. The
    /// request is checked first, then the name, and the password is hashed
    /// last; where hashing fails nothing is registered. The id is to be a
    /// UUID in its hyphenated form: that is the form under which
    /// [`Accounts::subject`] looks a user up.
    pub fn register(&mut self, username: &str, email: &str, password: &str, id: String, now: i64) -> (r: Result<
        User,
        AuthError,
    >)
        requires
            old(self).wf(),
        ensures
            final(self).wf(),
            match r {
                Ok(user) => {
                    &&& registration_is_valid(username@, email@, password@)
                    &&& !old(self)@.has_name(username@)
                    &&& user@.id == id@
                    &&& user@.username == username@
                    &&& user@.email == email@
                    &&& user@.created_at == now
                    &&& final(self)@ == old(self)@.enroll(user@)
                },
                Err(e) => {
                    &&& final(self)@ == old(self)@
                    &&& e == (if !registration_is_valid(username@, email@, password@) {
                        AuthError::InvalidRegistration
                    } else if old(self)@.has_name(username@) {
                        AuthError::UsernameTaken
                    } else {
                        AuthError::HashFailed
                    })
                },
            },
    {
        if !check_registration(username, email, password) {
            return Err(AuthError::InvalidRegistration);
        }
        proof {
            self.lemma_by_name(username@);
        }
        if index_get(&self.by_name, username).is_some() {
            return Err(AuthError::UsernameTaken);
        }
        let password_hash = match hash_password(password) {
            Some(hash) => hash,
            None => return Err(AuthError::HashFailed),
        };
        let user = User {
            id,
            username: String::from_str(username),
            email: String::from_str(email),
            password_hash,
            created_at: now,
        };
        match self.enroll(user.clone()) {
            Ok(_) => Ok(user),
            Err(e) => Err(e),
        }
    }

    /// Logs a user in: the user registered under `username`, where
    /// `password` is that user's.
    pub fn login(&self, username: &str, password: &str) -> (r: Result<User, AuthError>)
        requires
            self.wf(),
        ensures
            answer_view(r) == login_outcome(
                self@.by_name(username@),
                self@.by_name(username@) matches Some(user) && password_matches(password@, user.password_hash),
            ),
    {
        let found = self.find(username);
        let matches = match &found {
            Some(user) => verify_password(password, user.password_hash.as_str()),
            None => false,
        };
        grant(found, matches)
    }

    /// The user that a token speaks for, where `id` is the token's subject
    /// read as a user id, `None` where it is none.
    pub fn subject_of(&self, id: Option<String>) -> (r: Result<User, AuthError>)
        requires
            self.wf(),
        ensures
            answer_view(r) == self@.subject(
                match id {
                    Some(id) => Some(id@),
                    None => None,
                },
            ),
    {
        match id {
            None => Err(AuthError::InvalidToken),
            Some(id) => match self.find_by_id(id.as_str()) {
                Some(user) => Ok(user),
                None => Err(AuthError::UnknownUser),
            },
        }
    }

    /// The user that a token with the subject `sub` speaks for.
    pub fn subject(&self, sub: &str) -> (r: Result<User, AuthError>)
        requires
            self.wf(),
        ensures
            answer_view(r) == self@.subject(canonical_id(sub@)),
    {
        self.subject_of(parse_id(sub))
    }
}

} // verus!
