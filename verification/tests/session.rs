use krabka_admin::permissions::Capabilities;
use krabka_admin::session::{SessionCredentials, SessionId, SessionStore, SessionUser};

const MINUTE_NANOS: u64 = 60_000_000_000;

fn user(username: &str) -> SessionUser {
    SessionUser { username: username.to_string(), principal: format!("User:{username}") }
}

#[test]
fn session_store_creates_and_retrieves_user() {
    let mut store = SessionStore::new(MINUTE_NANOS);

    let id = store.create(SessionUser { username: "alice".to_string(), principal: "User:alice".to_string() });

    let record = store.get(&id).expect("session exists");
    assert!(record.user.username == "alice");
    assert!(record.user.principal == "User:alice");
}

#[test]
fn logout_removes_session() {
    let mut store = SessionStore::new(MINUTE_NANOS);
    let id = store.create(SessionUser { username: "bob".to_string(), principal: "User:bob".to_string() });

    assert!(store.remove(&id));
    assert!(store.get(&id).is_none());
}

#[test]
fn expired_session_returns_none_without_panicking() {
    let mut store = SessionStore::new(0);
    let id = store.create(SessionUser { username: "carol".to_string(), principal: "User:carol".to_string() });

    assert!(store.get(&id).is_none());
}

#[test]
fn session_id_try_from_accepts_cookie_uuid_and_rejects_invalid_value() {
    let id = SessionId::new();
    let cookie_value = id.expose_for_cookie();

    let parsed = SessionId::try_from(cookie_value).expect("uuid cookie value is valid");

    assert!(parsed.same_as(&id));
    assert!(SessionId::try_from("not-a-uuid").is_err());
}

#[test]
fn oversized_ttl_session_creation_does_not_panic() {
    let mut store = SessionStore::new(u64::MAX);
    let id = store.create(SessionUser { username: "dave".to_string(), principal: "User:dave".to_string() });
    assert!(id.expose_for_cookie().len() == 36);
}

#[test]
fn creating_a_session_drops_the_expired_records_of_earlier_logins() {
    let mut store = SessionStore::new(0);

    let first = store.create_authenticated(
        user("alice"),
        SessionCredentials::scram_sha512("first-password".to_string()),
        Capabilities::all(),
    );
    let second = store.create_authenticated(
        user("alice"),
        SessionCredentials::scram_sha512("second-password".to_string()),
        Capabilities::all(),
    );

    // The first record held a password past its TTL until the second login
    // dropped it.
    assert!(store.len() == 1);
    assert!(store.get(&first).is_none());
    assert!(store.get(&second).is_none());
}

#[test]
fn creating_a_session_keeps_the_records_that_are_still_live() {
    let mut store = SessionStore::new(MINUTE_NANOS);

    let first = store.create(user("alice"));
    let second = store.create(user("bob"));

    assert!(store.len() == 2);
    assert!(store.get(&first).is_some());
    assert!(store.get(&second).is_some());
}

#[test]
fn each_session_carries_its_own_csrf_token() {
    let mut store = SessionStore::new(MINUTE_NANOS);
    let first = store.create(user("alice"));
    let second = store.create(user("bob"));

    let first_record = store.get(&first).expect("first session exists");
    let second_record = store.get(&second).expect("second session exists");
    let first_token = first_record.csrf_token.expose_for_form().to_string();

    assert!(first_record.csrf_token.matches(&first_token));
    assert!(!second_record.csrf_token.matches(&first_token));
    assert!(!first_record.csrf_token.matches(""));
    assert!(!first_record.csrf_token.matches(&format!("{first_token}x")));
}

#[test]
fn an_authenticated_session_keeps_the_capabilities_it_was_created_with() {
    let mut store = SessionStore::new(MINUTE_NANOS);

    let id = store.create_authenticated(
        user("alice"),
        SessionCredentials::scram_sha512("password".to_string()),
        Capabilities::none(),
    );

    let record = store.get(&id).expect("session exists");
    assert!(record.capabilities == Capabilities::none());
}

#[test]
fn a_session_is_found_until_its_ttl_runs_out() {
    let mut store = SessionStore::new(1_000);
    let id = store.create_authenticated(
        user("erin"),
        SessionCredentials::scram_sha512("pw".to_string()),
        Capabilities::all(),
    );
    let record = store.get_at(&id, 0).expect("live at the start");
    assert!(record.credentials.as_ref().map(|c| c.password().to_string()) == Some("pw".to_string()));
    let expires_at = record.expires_at;
    assert!(store.get_at(&id, expires_at - 1).is_some());
    assert!(store.get_at(&id, expires_at).is_none());
    assert!(store.is_empty());
}

#[test]
fn a_removed_session_is_reported_once() {
    let mut store = SessionStore::new(MINUTE_NANOS);
    let id = store.create_user("frank", "User:frank");
    assert!(store.remove(&id));
    assert!(!store.remove(&id));
    assert!(store.ttl() == MINUTE_NANOS);
}

#[test]
fn a_session_id_in_upper_case_reads_back_in_canonical_form() {
    let id = SessionId::parse("67E55044-10B1-426F-9247-BB680E5FE0C8").expect("a valid uuid");
    assert!(id.expose_for_cookie() == "67e55044-10b1-426f-9247-bb680e5fe0c8");
}

#[test]
fn a_session_id_is_kept_in_its_canonical_form() {
    let upper = SessionId::parse("67E55044-10B1-426F-9247-BB680E5FE0C8").expect("hyphenated");
    assert!(upper.expose_for_cookie() == "67e55044-10b1-426f-9247-bb680e5fe0c8");
    let simple = SessionId::parse("67E5504410B1426F9247BB680E5FE0C8").expect("simple");
    assert!(simple.expose_for_cookie() == "67e55044-10b1-426f-9247-bb680e5fe0c8");
    let braced = SessionId::parse("{67e55044-10b1-426f-9247-bb680e5fe0c8}").expect("braced");
    assert!(braced.expose_for_cookie() == "67e55044-10b1-426f-9247-bb680e5fe0c8");
    let urn = SessionId::try_from("URN:UUID:67e55044-10b1-426f-9247-bb680e5fe0c8").expect("urn");
    assert!(urn.expose_for_cookie() == "67e55044-10b1-426f-9247-bb680e5fe0c8");
    assert!(upper == simple && simple == braced && braced == urn);
    assert!(SessionId::parse("67e55044-10b1-426f-9247-bb680e5fe0c").is_err());
    assert!(SessionId::parse("67e55044x10b1-426f-9247-bb680e5fe0c8").is_err());
    assert!(SessionId::parse("").is_err());
}

#[test]
fn default_ids_and_tokens_are_fresh_canonical_uuids() {
    let id = SessionId::default();
    assert!(id.expose_for_cookie().len() == 36);
    assert!(SessionId::parse(id.expose_for_cookie()).expect("canonical") == id);
    assert!(id == id.duplicate());
    assert!(SessionId::default() != id);
    let token = krabka_admin::session::CsrfToken::default();
    assert!(token.expose_for_form().len() == 36);
    assert!(token.expose_for_form().chars().all(|c| c == '-' || c.is_ascii_digit() || ('a'..='f').contains(&c)));
    assert!(token == token.duplicate());
    assert!(krabka_admin::session::CsrfToken::from_value("a".to_string()) != krabka_admin::session::CsrfToken::from_value("b".to_string()));
}

#[test]
fn credentials_compare_by_their_password() {
    let first = SessionCredentials::scram_sha512("pw".to_string());
    assert!(first == SessionCredentials::scram_sha512("pw".to_string()));
    assert!(first != SessionCredentials::scram_sha512("other".to_string()));
    assert!(first.duplicate() == first);
}
