use krabka_admin::dto::{GroupRow, UserRow};
use krabka_admin::server::{
    accept_mutation_body, admit_mutation, expired_session_cookie_header, operator_for, read_state_from,
    session_cookie,
};
use krabka_admin::session::{SessionId, SessionStore};
use krabka_admin::views::{render_page, render_page_for_operator, render_route_html, ReadRouteState, Route, RoutePage};

const MINUTE_NANOS: u64 = 60_000_000_000;

/// The session a request's `Cookie` header stands for, if any.
fn session_of(store: &mut SessionStore, cookie: Option<&str>) -> Option<krabka_admin::session::SessionRecord> {
    let value = session_cookie(cookie?)?;
    let id = SessionId::parse(&value).ok()?;
    store.get(&id)
}

#[test]
fn root_without_cookie_renders_login_instead_of_operations_shell() {
    let body = render_page(&RoutePage::for_unauthenticated_route(Route::Overview));

    assert!(body.contains("<!doctype html>"));
    assert!(body.contains("Sign in to Krabka Admin"));
    assert!(!body.contains("operations-shell"));
    assert!(!body.contains("Krabka Operations"));
}

#[test]
fn root_with_valid_cookie_renders_overview_shell() {
    let mut store = SessionStore::new(MINUTE_NANOS);
    let id = store.create_user("alice", "User:alice");
    let cookie = format!("krabka_admin_session={}", id.expose_for_cookie());

    let record = session_of(&mut store, Some(&cookie)).expect("the cookie names a live session");
    let body = render_page_for_operator(&RoutePage::overview(), &operator_for(&record));

    assert!(body.contains("operations-shell"));
    assert!(body.contains("action=\"/logout\""));
}

#[test]
fn login_returns_html_with_login_prompt() {
    let body = render_page(&RoutePage::login());

    assert!(body.contains("Sign in to Krabka"));
    assert!(body.contains("method=\"post\""));
    assert!(body.contains("name=\"username\""));
    assert!(body.contains("name=\"password\""));
}

#[test]
fn post_mutation_routes_reject_stale_cookie_before_decoding_request_body() {
    let mut store = SessionStore::new(MINUTE_NANOS);
    let record = session_of(&mut store, Some("krabka_admin_session=stale-session"));
    assert!(record.is_none());

    let refused = admit_mutation(record.as_ref(), None).err().unwrap();
    assert!(refused.status == 401);
    assert!(refused.body.contains("not authenticated"));
}

#[test]
fn protected_http_routes_without_cookie_render_guarded_login_page() {
    for route in [Route::Topics, Route::Groups, Route::Acls, Route::Users, Route::Quotas, Route::LogDirs] {
        let body = render_route_html(route);

        assert!(body == render_page(&RoutePage::for_unauthenticated_route(route)), "{route:?} guarded route HTML");
        assert!(body == render_page(&RoutePage::login()), "{route:?} login HTML");
        assert!(!body.contains("operations-shell"), "{route:?} operations shell");
        assert!(!body.contains("Authentication required."), "{route:?} auth shell copy");
    }
}

#[test]
fn missing_or_invalid_cookie_does_not_call_injected_seams() {
    for cookie in [None, Some("krabka_admin_session=not-a-session")] {
        let mut store = SessionStore::new(MINUTE_NANOS);
        assert!(session_of(&mut store, cookie).is_none());
    }
}

#[test]
fn logout_removes_the_session_and_expires_the_cookie() {
    let mut store = SessionStore::new(MINUTE_NANOS);
    let id = store.create_user("alice", "User:alice");
    let record = store.get(&id).expect("session exists");
    let body = format!("csrf_token={}", record.csrf_token.expose_for_form()).into_bytes();

    assert!(admit_mutation(Some(&record), None).is_ok());
    assert!(accept_mutation_body(
        &record.csrf_token,
        Some("application/x-www-form-urlencoded".to_string()),
        "",
        body
    )
    .is_ok());
    assert!(store.remove(&id));

    assert!(expired_session_cookie_header().contains("Max-Age=0"));
    assert!(store.get(&id).is_none());
}

#[test]
fn logout_without_the_csrf_token_keeps_the_session() {
    let mut store = SessionStore::new(MINUTE_NANOS);
    let id = store.create_user("alice", "User:alice");
    let record = store.get(&id).expect("session exists");

    let refused = accept_mutation_body(
        &record.csrf_token,
        Some("application/x-www-form-urlencoded".to_string()),
        "",
        b"csrf_token=wrong".to_vec(),
    )
    .err()
    .unwrap();

    assert!(refused.status == 403);
    assert!(store.get(&id).is_some());
}

#[test]
fn dynamic_read_routes_match_shared_page_renderer() {
    let mut store = SessionStore::new(MINUTE_NANOS);
    let id = store.create_user("alice", "User:alice");
    let operator = operator_for(&store.get(&id).expect("session exists"));

    let groups = read_state_from(Ok(vec![GroupRow { group_id: "consumer-a".to_string() }])).expect("rows");
    let users = read_state_from(Ok(vec![UserRow {
        username: "scram-alice".to_string(),
        principal: "User:scram-alice".to_string(),
    }]))
    .expect("rows");

    let groups_body = render_page_for_operator(&RoutePage::groups(groups), &operator);
    let users_body = render_page_for_operator(&RoutePage::users(users), &operator);

    assert!(
        groups_body
            == render_page_for_operator(
                &RoutePage::groups(ReadRouteState::Rows(vec![GroupRow { group_id: "consumer-a".to_string() }])),
                &operator,
            )
    );
    assert!(groups_body.contains("consumer-a"));
    assert!(users_body.contains("scram-alice"));
}

#[test]
fn every_route_renders_a_page() {
    for route in [
        Route::Overview,
        Route::Login,
        Route::Topics,
        Route::Groups,
        Route::Acls,
        Route::Users,
        Route::Quotas,
        Route::LogDirs,
    ] {
        assert!(render_route_html(route).starts_with("<!doctype html>"), "route {route:?} should render a page");
    }
}
