use chat_relay::accounts::{
    check_registration, grant, token_expiry, Accounts, AuthError, User, MIN_PASSWORD_BYTES,
    TOKEN_LIFETIME_SECONDS,
};

const ALICE_ID: &str = "550e8400-e29b-41d4-a716-446655440000";
const BOB_ID: &str = "6ba7b810-9dad-11d1-80b4-00c04fd430c8";

fn user(id: &str, username: &str, email: &str, hash: &str, created_at: i64) -> User {
    User {
        id: id.to_string(),
        username: username.to_string(),
        email: email.to_string(),
        password_hash: hash.to_string(),
        created_at,
    }
}

#[test]
fn registration_needs_name_email_and_six_bytes_of_password() {
    assert!(check_registration("alice", "alice@example.org", "secret"));
    assert!(check_registration(" alice ", "\talice@example.org\n", "long enough password"));
    assert!(!check_registration("", "alice@example.org", "secret"));
    assert!(!check_registration("   ", "alice@example.org", "secret"));
    assert!(!check_registration("\t\n ", "alice@example.org", "secret"));
    assert!(!check_registration("alice", "", "secret"));
    assert!(!check_registration("alice", " \u{a0}\u{2003} ", "secret"));
    assert!(!check_registration("alice", "alice@example.org", "12345"));
    assert!(!check_registration("alice", "alice@example.org", ""));
    assert!(!check_registration("", "", ""));
}

#[test]
fn password_length_counts_bytes() {
    assert_eq!(MIN_PASSWORD_BYTES, 6);
    assert!(check_registration("alice", "a@b", "      "));
    assert!(check_registration("alice", "a@b", "ééé"));
    assert!(!check_registration("alice", "a@b", "éé"));
    assert!(!check_registration("alice", "a@b", "ééa"));
    assert!(check_registration("alice", "a@b", "日本"));
}

#[test]
fn token_expiry_is_one_day_later() {
    assert_eq!(TOKEN_LIFETIME_SECONDS, 24 * 60 * 60);
    assert_eq!(token_expiry(0), 86_400);
    assert_eq!(token_expiry(1_700_000_000), 1_700_086_400);
    assert_eq!(token_expiry(-1), 86_399);
    assert_eq!(token_expiry(-86_400), 0);
}

#[test]
fn token_expiry_stays_within_usize() {
    assert_eq!(token_expiry(-86_401), 0);
    assert_eq!(token_expiry(i64::MIN), 0);
    let latest = (i64::MAX as u128 + 86_400).min(usize::MAX as u128) as usize;
    assert_eq!(token_expiry(i64::MAX), latest);
}

#[test]
fn each_refusal_has_its_status_and_sentence() {
    let table = vec![
        (
            AuthError::InvalidRegistration,
            400,
            "Username and email are required, password must be at least 6 characters",
        ),
        (AuthError::UsernameTaken, 409, "Username already exists"),
        (AuthError::HashFailed, 500, "Failed to hash password"),
        (AuthError::TokenFailed, 500, "Failed to generate token"),
        (AuthError::BadCredentials, 401, "Invalid username or password"),
        (AuthError::TokenRequired, 400, "Token is required"),
        (AuthError::InvalidToken, 401, "Invalid token"),
        (AuthError::UnknownUser, 401, "User not found"),
    ];
    for (error, status, sentence) in table {
        assert_eq!(error.status(), status);
        assert_eq!(error.message(), sentence);
    }
}

#[test]
fn grant_needs_a_user_and_a_match() {
    let alice = user(ALICE_ID, "alice", "alice@example.org", "hash", 7);
    assert_eq!(grant(Some(alice.clone()), true), Ok(alice.clone()));
    assert_eq!(grant(Some(alice), false), Err(AuthError::BadCredentials));
    assert_eq!(grant(None, true), Err(AuthError::BadCredentials));
    assert_eq!(grant(None, false), Err(AuthError::BadCredentials));
}

#[test]
fn new_accounts_hold_nobody() {
    let accounts = Accounts::new();
    assert_eq!(accounts.find("alice"), None);
    assert_eq!(accounts.find_by_id(ALICE_ID), None);
    assert_eq!(accounts.login("alice", "secret"), Err(AuthError::BadCredentials));
    assert_eq!(accounts.subject(ALICE_ID), Err(AuthError::UnknownUser));
}

#[test]
fn enroll_registers_each_name_once() {
    let mut accounts = Accounts::new();
    let alice = user(ALICE_ID, "alice", "alice@example.org", "h1", 1);
    let bob = user(BOB_ID, "bob", "bob@example.org", "h2", 2);
    assert_eq!(accounts.enroll(alice.clone()), Ok(()));
    assert_eq!(accounts.enroll(bob.clone()), Ok(()));
    let impostor = user("00000000-0000-4000-8000-000000000000", "alice", "x@example.org", "h3", 3);
    assert_eq!(accounts.enroll(impostor), Err(AuthError::UsernameTaken));
    assert_eq!(accounts.find("alice"), Some(alice.clone()));
    assert_eq!(accounts.find("bob"), Some(bob.clone()));
    assert_eq!(accounts.find("Alice"), None);
    assert_eq!(accounts.find_by_id(ALICE_ID), Some(alice));
    assert_eq!(accounts.find_by_id(BOB_ID), Some(bob));
    assert_eq!(accounts.find_by_id("00000000-0000-4000-8000-000000000000"), None);
}

#[test]
fn an_id_used_twice_finds_the_user_registered_last() {
    let mut accounts = Accounts::new();
    let first = user(ALICE_ID, "alice", "alice@example.org", "h1", 1);
    let second = user(ALICE_ID, "bob", "bob@example.org", "h2", 2);
    assert_eq!(accounts.enroll(first.clone()), Ok(()));
    assert_eq!(accounts.enroll(second.clone()), Ok(()));
    assert_eq!(accounts.find_by_id(ALICE_ID), Some(second));
    assert_eq!(accounts.find("alice"), Some(first));
}

#[test]
fn register_then_login() {
    let mut accounts = Accounts::new();
    let registered =
        accounts.register("alice", "alice@example.org", "correct horse", ALICE_ID.to_string(), 1_700_000_000).unwrap();
    assert_eq!(registered.id, ALICE_ID);
    assert_eq!(registered.username, "alice");
    assert_eq!(registered.email, "alice@example.org");
    assert_eq!(registered.created_at, 1_700_000_000);
    assert!(registered.password_hash.starts_with("$2b$12$"));
    assert_eq!(registered.password_hash.len(), 60);
    assert_ne!(registered.password_hash, "correct horse");
    assert_eq!(accounts.find("alice"), Some(registered.clone()));
    assert_eq!(accounts.login("alice", "correct horse"), Ok(registered.clone()));
    assert_eq!(accounts.login("alice", "correct horsf"), Err(AuthError::BadCredentials));
    assert_eq!(accounts.login("bob", "correct horse"), Err(AuthError::BadCredentials));
    assert_eq!(accounts.subject(ALICE_ID), Ok(registered));
}

#[test]
fn register_refuses_in_order() {
    let mut accounts = Accounts::new();
    assert!(accounts.register("alice", "alice@example.org", "secret", ALICE_ID.to_string(), 1).is_ok());
    assert_eq!(
        accounts.register("alice", "other@example.org", "secret", BOB_ID.to_string(), 2),
        Err(AuthError::UsernameTaken)
    );
    assert_eq!(
        accounts.register("alice", "other@example.org", "short", BOB_ID.to_string(), 2),
        Err(AuthError::InvalidRegistration)
    );
    assert_eq!(
        accounts.register("  ", "other@example.org", "secret", BOB_ID.to_string(), 2),
        Err(AuthError::InvalidRegistration)
    );
    assert_eq!(
        accounts.register("bob", "", "secret", BOB_ID.to_string(), 2),
        Err(AuthError::InvalidRegistration)
    );
    assert_eq!(accounts.find("bob"), None);
    assert_eq!(accounts.find_by_id(BOB_ID), None);
    assert_eq!(accounts.find("alice").unwrap().email, "alice@example.org");
}

#[test]
fn register_keeps_the_name_as_given() {
    let mut accounts = Accounts::new();
    let registered = accounts.register(" alice ", " a@b ", "secret", ALICE_ID.to_string(), 5).unwrap();
    assert_eq!(registered.username, " alice ");
    assert_eq!(registered.email, " a@b ");
    assert_eq!(accounts.find("alice"), None);
    assert_eq!(accounts.find(" alice "), Some(registered));
}

#[test]
fn login_checks_the_stored_hash() {
    let mut accounts = Accounts::new();
    let hash = "$2y$05$bvIG6Nmid91Mu9RcmmWZfO5HJIMCT8riNW0hEp8f6/FuA2/mHZFpe";
    assert_eq!(accounts.enroll(user(ALICE_ID, "alice", "a@b", hash, 1)), Ok(()));
    assert_eq!(accounts.enroll(user(BOB_ID, "bob", "b@b", "not a hash", 2)), Ok(()));
    assert!(accounts.login("alice", "password").is_ok());
    assert_eq!(accounts.login("alice", "Password"), Err(AuthError::BadCredentials));
    assert_eq!(accounts.login("alice", hash), Err(AuthError::BadCredentials));
    assert_eq!(accounts.login("bob", "not a hash"), Err(AuthError::BadCredentials));
}

#[test]
fn subject_reads_an_id_in_any_form() {
    let mut accounts = Accounts::new();
    let alice = user(ALICE_ID, "alice", "a@b", "h", 1);
    assert_eq!(accounts.enroll(alice.clone()), Ok(()));
    assert_eq!(accounts.subject(ALICE_ID), Ok(alice.clone()));
    assert_eq!(accounts.subject("550E8400-E29B-41D4-A716-446655440000"), Ok(alice.clone()));
    assert_eq!(accounts.subject("550e8400e29b41d4a716446655440000"), Ok(alice.clone()));
    assert_eq!(accounts.subject("urn:uuid:550e8400-e29b-41d4-a716-446655440000"), Ok(alice.clone()));
    assert_eq!(accounts.subject("{550e8400-e29b-41d4-a716-446655440000}"), Ok(alice));
}

#[test]
fn subject_refuses_what_is_no_id_or_nobodys() {
    let mut accounts = Accounts::new();
    assert_eq!(accounts.enroll(user(ALICE_ID, "alice", "a@b", "h", 1)), Ok(()));
    assert_eq!(accounts.subject("alice"), Err(AuthError::InvalidToken));
    assert_eq!(accounts.subject(""), Err(AuthError::InvalidToken));
    assert_eq!(accounts.subject("550e8400-e29b-41d4-a716-44665544000"), Err(AuthError::InvalidToken));
    assert_eq!(accounts.subject(BOB_ID), Err(AuthError::UnknownUser));
    assert_eq!(accounts.subject_of(None), Err(AuthError::InvalidToken));
    assert_eq!(accounts.subject_of(Some(BOB_ID.to_string())), Err(AuthError::UnknownUser));
    assert!(accounts.subject_of(Some(ALICE_ID.to_string())).is_ok());
}

#[test]
fn user_clone_is_equal() {
    let alice = user(ALICE_ID, "alice", "a@b", "h", -3);
    assert_eq!(alice.clone(), alice);
}
