use krabka_admin::auth::{
    classify_login_failure, complete_login, effective_capabilities, login_principal, LoginRequest,
};
use krabka_admin::dto::{KafkaErrorDto, ResourceOutcome};
use krabka_admin::error::UiError;
use krabka_admin::permissions::Capabilities;
use krabka_admin::server::{
    accept_mutation_body, admit_mutation, body_too_large, check_form_token, expired_session_cookie_header,
    invalid_request, login_failure_response, mutation_error_status, mutation_error_text, mutation_outcome_text,
    mutation_result_response, operator_for, permits_mutation, read_state_from, rejected_form, request_content_type,
    session_cookie, session_cookie_header, MutationBody, QuotaLookup, CSRF_HEADER_NAME, SESSION_COOKIE_NAME,
};
use krabka_admin::session::{CsrfToken, SessionId, SessionStore, SessionUser};
use krabka_admin::views::forms::MutationKind;
use krabka_admin::views::{LoginRouteState, ReadRouteState, RoutePage};

const MINUTE_NANOS: u64 = 60_000_000_000;

fn store_with_alice() -> (SessionStore, SessionId) {
    let mut store = SessionStore::new(MINUTE_NANOS);
    let id = store.create(SessionUser { username: "alice".to_string(), principal: "User:alice".to_string() });
    (store, id)
}

#[test]
fn a_json_mutation_without_the_csrf_token_is_refused() {
    let (mut store, id) = store_with_alice();
    let record = store.get(&id).expect("session exists");
    assert!(admit_mutation(Some(&record), Some(MutationKind::CreateTopic)).is_ok());
    let refused = accept_mutation_body(
        &record.csrf_token,
        Some("application/json".to_string()),
        "",
        br#"{"name":"orders","partitions":3,"replicas":1,"configs":[]}"#.to_vec(),
    )
    .err()
    .unwrap();
    assert!(refused.status == 403);
    assert!(refused.body.contains("missing or stale CSRF token"));
}

#[test]
fn a_json_mutation_with_another_sessions_csrf_token_is_refused() {
    let (mut store, first) = store_with_alice();
    let second = store.create(SessionUser { username: "bob".to_string(), principal: "User:bob".to_string() });
    let first_record = store.get(&first).expect("first");
    let second_record = store.get(&second).expect("second");
    let refused = accept_mutation_body(
        &first_record.csrf_token,
        Some("application/json".to_string()),
        second_record.csrf_token.expose_for_form(),
        b"{}".to_vec(),
    )
    .err()
    .unwrap();
    assert!(refused.status == 403);
}

#[test]
fn a_json_mutation_with_its_own_token_passes() {
    let token = CsrfToken::from_value("t-1".to_string());
    match accept_mutation_body(&token, Some("application/json".to_string()), "t-1", b"{\"a\":1}".to_vec()) {
        Ok(MutationBody::Json(body)) => assert!(body == b"{\"a\":1}".to_vec()),
        _ => panic!("expected the JSON body"),
    }
}

#[test]
fn a_cross_site_simple_post_cannot_reach_a_mutation() {
    let token = CsrfToken::from_value("t-1".to_string());
    for content_type in ["text/plain", "multipart/form-data"] {
        let refused = accept_mutation_body(&token, Some(content_type.to_string()), "t-1", b"x".to_vec())
            .err()
            .unwrap();
        assert!(refused.status == 415, "{content_type}");
    }
    let refused = accept_mutation_body(&token, None, "t-1", Vec::new()).err().unwrap();
    assert!(refused.status == 415);
    let refused = accept_mutation_body(
        &token,
        Some("application/x-www-form-urlencoded".to_string()),
        "",
        b"name=orders".to_vec(),
    )
    .err()
    .unwrap();
    assert!(refused.status == 403);
}

#[test]
fn a_rendered_form_post_reaches_the_mutation_seam() {
    let token = CsrfToken::from_value("tok".to_string());
    let body = b"csrf_token=tok&name=orders&partitions=3&csrf_token=again".to_vec();
    match accept_mutation_body(&token, Some("application/x-www-form-urlencoded".to_string()), "", body) {
        Ok(MutationBody::Form(encoded)) => assert!(encoded == "name=orders&partitions=3"),
        _ => panic!("expected the form body"),
    }
}

#[test]
fn a_form_with_a_stale_token_is_refused() {
    let token = CsrfToken::from_value("tok".to_string());
    let fields = vec![("csrf_token".to_string(), "old".to_string()), ("name".to_string(), "x".to_string())];
    let refused = check_form_token(&token, fields).err().unwrap();
    assert!(refused.status == 403);
    let kept = check_form_token(&token, vec![("csrf_token".to_string(), "tok".to_string())]).ok().unwrap();
    assert!(kept.is_empty());
}

#[test]
fn post_mutation_routes_authenticate_before_decoding_request_body() {
    let refused = admit_mutation(None, Some(MutationKind::CreateTopic)).err().unwrap();
    assert!(refused.status == 401);
    assert!(refused.body.contains("not authenticated"));
}

#[test]
fn a_restricted_operator_reaches_neither_the_page_nor_the_mutation() {
    let mut store = SessionStore::new(MINUTE_NANOS);
    let id = store.create_authenticated(
        SessionUser { username: "carol".to_string(), principal: "User:carol".to_string() },
        krabka_admin::session::SessionCredentials::scram_sha512("pw".to_string()),
        Capabilities::none(),
    );
    let record = store.get(&id).expect("session exists");
    let refused = admit_mutation(Some(&record), Some(MutationKind::CreateAcl)).err().unwrap();
    assert!(refused.status == 403);
    assert!(refused.body == "status=error\nmessage=not permitted\n");
    assert!(admit_mutation(Some(&record), None).is_ok());
    assert!(!permits_mutation(Some(MutationKind::MoveReplica), Capabilities::none()));
    assert!(permits_mutation(None, Capabilities::none()));
}

#[test]
fn the_session_cookie_is_found_among_others() {
    assert!(session_cookie("theme=dark; krabka_admin_session=abc; other=1") == Some("abc".to_string()));
    assert!(session_cookie("krabka_admin_session=a=b") == Some("a=b".to_string()));
    assert!(session_cookie("krabka_admin_session_x=1").is_none());
    assert!(session_cookie("").is_none());
    assert!(SESSION_COOKIE_NAME == "krabka_admin_session");
    assert!(CSRF_HEADER_NAME == "x-krabka-csrf");
}

#[test]
fn the_content_type_loses_its_parameters() {
    assert!(request_content_type(Some("Application/JSON; charset=utf-8")) == Some("application/json".to_string()));
    assert!(request_content_type(Some("  text/plain ")) == Some("text/plain".to_string()));
    assert!(request_content_type(None).is_none());
}

#[test]
fn the_quota_page_reads_the_entity_the_operator_asked_for() {
    assert!(QuotaLookup { entity: Some("  bob ".to_string()) }.requested_entity() == Some("bob".to_string()));
    assert!(QuotaLookup { entity: Some("   ".to_string()) }.requested_entity().is_none());
    assert!(QuotaLookup { entity: None }.requested_entity().is_none());
}

#[test]
fn a_semantic_validation_failure_is_a_client_error() {
    let reply = mutation_result_response(Err(UiError::InvalidRequest("partitions must be positive".to_string())));
    assert!(reply.status == 400);
    assert!(reply.body == "status=error\nmessage=invalid request: partitions must be positive\n");
    assert!(rejected_form("name is required").status == 400);
}

#[test]
fn mutation_errors_map_to_their_statuses() {
    assert!(mutation_error_status(&UiError::NotAuthenticated) == 401);
    assert!(mutation_error_status(&UiError::SessionExpired) == 401);
    assert!(mutation_error_status(&UiError::NotPermitted) == 403);
    assert!(mutation_error_status(&UiError::BrokerConnection("down".to_string())) == 502);
    assert!(mutation_error_status(&UiError::Broker { code: 29, name: "TOPIC_AUTHORIZATION_FAILED".to_string() }) == 502);
    assert!(mutation_error_status(&UiError::Admin("odd".to_string())) == 500);
    assert!(UiError::Broker { code: 29, name: "X".to_string() }.message() == "broker error X (29)");
}

#[test]
fn authenticated_post_mutation_routes_report_each_resource() {
    let outcomes = vec![
        ResourceOutcome { resource: "orders".to_string(), error: None },
        ResourceOutcome {
            resource: "payments".to_string(),
            error: Some(KafkaErrorDto { code: 36, name: "TOPIC_ALREADY_EXISTS".to_string(), message: None }),
        },
    ];
    let text = mutation_outcome_text(&outcomes);
    assert!(
        text == "status=ok\nresource=orders\tstatus=ok\nresource=payments\tstatus=error\terror_code=36\terror_name=TOPIC_ALREADY_EXISTS\n"
    );
    let reply = mutation_result_response(Ok(outcomes));
    assert!(reply.status == 200 && reply.body.contains("status=ok"));
    assert!(mutation_error_text("x") == "status=error\nmessage=x\n");
}

#[test]
fn authenticated_mutation_routes_share_the_configured_body_limit() {
    let reply = body_too_large();
    assert!(reply.status == 413);
    assert!(reply.body.contains("request body too large"));
}

#[test]
fn post_mutation_routes_return_bad_request_for_authenticated_malformed_json() {
    let reply = invalid_request(true);
    assert!(reply.status == 400);
    assert!(reply.body.contains("invalid JSON request"));
    assert!(invalid_request(false).body.contains("invalid form request"));
}

#[test]
fn a_broker_outage_at_login_is_not_reported_as_a_bad_password() {
    let (status, page) =
        login_failure_response(&UiError::BrokerConnection("no bootstrap address was reachable: tried 1".to_string()));
    assert!(status == 503);
    assert!(page == RoutePage::Login { state: LoginRouteState::BrokerUnavailable });
    let (status, page) = login_failure_response(&UiError::NotAuthenticated);
    assert!(status == 401);
    assert!(page == RoutePage::login_failed());
    assert!(login_failure_response(&UiError::Admin("x".to_string())).0 == 502);
}

#[test]
fn login_stores_the_capabilities_the_broker_reported() {
    let mut store = SessionStore::new(MINUTE_NANOS);
    let success = complete_login(
        &mut store,
        LoginRequest { username: "alice".to_string(), password: "secret".to_string() },
        Ok(Capabilities::none()),
    )
    .ok()
    .unwrap();
    assert!(success.username == "alice");
    assert!(success.principal == "User:alice");
    let id = SessionId::parse(&success.session_id).ok().unwrap();
    let record = store.get(&id).expect("the login opened a session");
    assert!(record.capabilities == Capabilities::none());
    assert!(record.credentials.as_ref().map(|c| c.password().to_string()) == Some("secret".to_string()));
}

#[test]
fn a_refused_login_opens_no_session() {
    let mut store = SessionStore::new(MINUTE_NANOS);
    let refused = complete_login(
        &mut store,
        LoginRequest { username: "alice".to_string(), password: "wrong".to_string() },
        Err(UiError::NotAuthenticated),
    );
    assert!(refused.err() == Some(UiError::NotAuthenticated));
    assert!(store.is_empty());
}

#[test]
fn an_operator_without_acls_gets_every_capability() {
    assert!(effective_capabilities(None) == Capabilities::all());
    assert!(effective_capabilities(Some(Capabilities::none())) == Capabilities::all());
    let mut reader = Capabilities::none();
    reader.view_topics = true;
    assert!(effective_capabilities(Some(reader)) == reader);
    assert!(login_principal("bob") == "User:bob");
}

#[test]
fn a_listening_broker_means_the_credentials_were_refused() {
    let down = UiError::BrokerConnection("refused".to_string());
    assert!(classify_login_failure(true, true, down.clone()) == UiError::NotAuthenticated);
    assert!(classify_login_failure(true, false, down.clone()) == down);
    assert!(classify_login_failure(false, true, down.clone()) == down);
}

#[test]
fn posting_login_sets_session_cookie() {
    let cookie = session_cookie_header("abc");
    assert!(cookie == "krabka_admin_session=abc; HttpOnly; SameSite=Lax; Path=/");
    assert!(cookie.contains("HttpOnly") && cookie.contains("SameSite=Lax") && cookie.contains("Path=/"));
    assert!(expired_session_cookie_header().contains("Max-Age=0"));
}

#[test]
fn read_pages_show_rows_failures_or_the_login_page() {
    assert!(read_state_from::<u8>(Err(UiError::NotAuthenticated)).is_none());
    assert!(matches!(read_state_from::<u8>(Err(UiError::Admin("x".to_string()))), Some(ReadRouteState::LoadFailed)));
    match read_state_from(Ok(vec![1u8, 2])) {
        Some(ReadRouteState::Rows(rows)) => assert!(rows == vec![1, 2]),
        _ => panic!("expected rows"),
    }
}

#[test]
fn the_shell_renders_for_the_session_operator() {
    let (mut store, id) = store_with_alice();
    let record = store.get(&id).expect("session");
    let view = operator_for(&record);
    assert!(view.capabilities() == record.capabilities);
    assert!(view.csrf_token() == Some(record.csrf_token.expose_for_form()));
}

#[test]
fn a_form_body_is_decoded_and_encoded_again() {
    let token = CsrfToken::from_value("tok".to_string());
    let body = b"name=my%20topic&csrf_token=tok".to_vec();
    match accept_mutation_body(&token, Some("application/x-www-form-urlencoded".to_string()), "", body) {
        Ok(MutationBody::Form(encoded)) => assert!(encoded == "name=my+topic"),
        _ => panic!("expected the form body"),
    }
    let broken = b"name=%zz&csrf_token=tok".to_vec();
    let reply = accept_mutation_body(&token, Some("application/x-www-form-urlencoded".to_string()), "", broken);
    assert!(reply.is_ok() || reply.err().unwrap().status == 400);
}

#[test]
fn a_form_body_is_encoded_as_a_browser_would() {
    let token = CsrfToken::from_value("tok".to_string());
    let body = "name=caf%C3%A9&csrf_token=tok&note=a*b-c._d+e&sym=%26%3D%2F".as_bytes().to_vec();
    match accept_mutation_body(&token, Some("application/x-www-form-urlencoded".to_string()), "", body) {
        Ok(MutationBody::Form(encoded)) => {
            assert!(encoded == "name=caf%C3%A9&note=a*b-c._d+e&sym=%26%3D%2F", "{encoded}")
        }
        _ => panic!("expected the form body"),
    }
    let empty = accept_mutation_body(&token, Some("application/x-www-form-urlencoded".to_string()), "", b"csrf_token=tok".to_vec());
    match empty {
        Ok(MutationBody::Form(encoded)) => assert!(encoded.is_empty()),
        _ => panic!("expected an empty form"),
    }
}
