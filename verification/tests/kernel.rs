use desk::kernel::{
    agent_limits, base, empty_body, friendly, kernel_reply, kernel_request, kernel_status,
    require_session, session, settle, transport_failure, Outcome,
};
use desk::admission::Counters;
use desk::refusal::Refusal;
use serde_json::Value;
use topcoat::context::Cx;
use topcoat::router::error::{bad_request, internal_server_error, redirect, service_unavailable};
use topcoat::router::response::{IntoResponse, Response};
use topcoat::router::StatusCode;

/// The framework's response to a refusal.
fn response(refusal: Refusal) -> Response {
    let error: topcoat::Error = match refusal {
        Refusal::Redirect(path) => redirect(path).into(),
        Refusal::Busy(secs) => service_unavailable(secs).into(),
        Refusal::BadRequest(words) => bad_request(words).into(),
        Refusal::Internal(words) => internal_server_error(std::io::Error::other(words)).into(),
    };
    error.into_response(&Cx::default()).expect("a response")
}

fn json(text: &str) -> Value {
    serde_json::from_str(text).unwrap()
}

#[test]
fn kernel_unauthorized_status_redirects_to_login() {
    let error = kernel_status(
        401,
        &json(r#"{ "error": { "kind": "permission-denied" } }"#),
    );
    assert_eq!(error.status(), 307);
    assert_eq!(error, Refusal::Redirect("/login".to_string()));
    let response = response(error);
    assert_eq!(response.status(), StatusCode::TEMPORARY_REDIRECT);
    assert_eq!(response.headers()["location"], "/login");
}

#[test]
fn a_refusal_s_status_is_the_framework_s() {
    for code in [401, 429, 500, 503] {
        let refusal = kernel_status(code, &json("{}"));
        let status = refusal.status();
        assert_eq!(response(refusal).status().as_u16(), status);
    }
    let refusal = Refusal::BadRequest("live unavailable".to_string());
    assert_eq!(response(refusal).status(), StatusCode::BAD_REQUEST);
    assert_eq!(response(Refusal::Busy(2)).headers()["retry-after"], "2");
}

#[test]
fn a_capacity_answer_survives_the_hop() {
    for code in [429, 502, 503] {
        let refusal = kernel_status(code, &json(r#"{ "error": { "kind": "db" } }"#));
        assert_eq!(refusal, Refusal::Busy(2));
        assert_eq!(refusal.status(), 503);
    }
}

#[test]
fn any_other_status_is_a_failure_in_words() {
    let refusal = kernel_status(403, &json(r#"{ "error": { "kind": "permission-denied" } }"#));
    assert_eq!(
        refusal,
        Refusal::Internal("You don't have permission to do that.".to_string())
    );
    assert_eq!(refusal.status(), 500);
    assert_eq!(Refusal::BadRequest("no".to_string()).status(), 400);
}

#[test]
fn every_kind_of_error_has_its_words() {
    for (code, body, words) in [
        (
            400,
            r#"{"error":{"kind":"hook-rejected","message":"too late"}}"#,
            "Rejected by a validation rule: too late",
        ),
        (
            400,
            r#"{"error":{"kind":"hook-rejected"}}"#,
            "Rejected by a validation rule: the document was not accepted",
        ),
        (
            400,
            r#"{"error":{"kind":"identity-unresolved"}}"#,
            "Your identity could not be resolved — contact an administrator.",
        ),
        (
            401,
            r#"{"error":{"kind":"permission-denied"}}"#,
            "Your session has expired — please log in again.",
        ),
        (
            403,
            r#"{"error":{"kind":"permission-denied"}}"#,
            "You don't have permission to do that.",
        ),
        (
            403,
            r#"{"error":{"kind":"field-not-readable"}}"#,
            "You don't have permission to see one of those fields.",
        ),
        (
            404,
            r#"{"error":{"kind":"unknown-doctype"}}"#,
            "That DocType does not exist.",
        ),
        (
            400,
            r#"{"error":{"kind":"invalid-value","detail":"qty"}}"#,
            "Invalid input: qty",
        ),
        (
            409,
            r#"{"error":{"kind":"write-conflict-exhausted"}}"#,
            "The system is busy — please try again.",
        ),
        (
            500,
            r#"{"error":{"kind":"db","detail":"x FRUST:E_DOCSTATUS:RESURRECTION y"}}"#,
            "This document is cancelled; it can never be edited again.",
        ),
        (
            500,
            r#"{"error":{"kind":"db","detail":"FRUST:E_DOCSTATUS:OTHER"}}"#,
            "That lifecycle transition is not allowed.",
        ),
        (
            500,
            r#"{"error":{"kind":"db","detail":"at FRUST:E_IDENTITY_UNRESOLVED"}}"#,
            "Your identity could not be resolved — contact an administrator.",
        ),
        (
            403,
            r#"{"error":{"kind":"workflow-denied","detail":"'Approve' requires role manager"}}"#,
            "'Approve' requires role manager",
        ),
        (
            500,
            r#"{"error":{"kind":"db","detail":"raw engine words"}}"#,
            "Something went wrong on the server.",
        ),
        (500, r#"{"error":{"kind":7}}"#, "Something went wrong on the server."),
        (500, r#"{"error":"kind"}"#, "Something went wrong on the server."),
        (500, "null", "Something went wrong on the server."),
    ] {
        assert_eq!(friendly(code, &json(body)), words, "{body}");
    }
}

#[test]
fn a_call_carries_the_session_s_token() {
    let body = json(r#"{ "b": [1, 2.5, null], "a": "x\"y" }"#);
    let request = kernel_request("http://k", Some("t0"), "/read/x", Some(&body));
    assert_eq!(request.url, "http://k/read/x");
    assert_eq!(request.authorization.as_deref(), Some("Bearer t0"));
    assert_eq!(request.body.as_deref(), Some(r#"{"a":"x\"y","b":[1,2.5,null]}"#));

    let request = kernel_request("http://k", None, "/meta", None);
    assert_eq!(request.url, "http://k/meta");
    assert_eq!(request.authorization, None);
    assert_eq!(request.body, None);
}

#[test]
fn a_kernel_that_cannot_be_reached_is_a_typed_failure() {
    let (code, body) = transport_failure("connection refused");
    assert_eq!(code, 502);
    assert_eq!(
        body,
        json(r#"{ "error": { "kind": "transport", "detail": "connection refused" } }"#)
    );
    assert_eq!(kernel_status(code, &body), Refusal::Busy(2));
}

#[test]
fn a_reply_keeps_the_status_and_the_body() {
    let body = json(r#"{ "rows": [] }"#);
    assert_eq!(kernel_reply(Outcome::Answered(418, Some(body.clone()))), (418, body));
    assert_eq!(kernel_reply(Outcome::Answered(200, None)), (200, json("{}")));
    assert_eq!(
        kernel_reply(Outcome::Failed("late".to_string())),
        transport_failure("late")
    );
    assert_eq!(empty_body(), json("{}"));
}

#[test]
fn the_pool_of_the_agent_stays_within_reason() {
    for (ceiling, idle) in [(1, 8), (8, 8), (17, 17), (64, 64), (100000, 64)] {
        let limits = agent_limits(ceiling);
        assert_eq!(limits.idle_connections, idle);
        assert_eq!(limits.connect_secs, 10);
        assert_eq!(limits.global_secs, 60);
    }
    assert_eq!(base(None), "http://127.0.0.1:8790");
    assert_eq!(base(Some("http://kernel:1")), "http://kernel:1");
}

#[test]
fn a_session_is_its_token() {
    assert!(session(None, Some("ann"), Some("clerk")).is_none());
    let s = session(Some("t"), Some("ann"), None).unwrap();
    assert_eq!((s.token.as_str(), s.user.as_str(), s.role.as_str()), ("t", "ann", ""));
    let s = session(Some(""), None, Some("clerk")).unwrap();
    assert_eq!((s.token.as_str(), s.user.as_str(), s.role.as_str()), ("", "", "clerk"));
}

#[test]
fn without_a_session_the_way_is_to_the_login_page() {
    match require_session(None) {
        Ok(_) => panic!("no session was required"),
        Err(refusal) => assert_eq!(refusal, Refusal::Redirect("/login".to_string())),
    }
    match require_session(session(Some("t"), None, None)) {
        Ok(s) => assert_eq!(s.token, "t"),
        Err(_) => panic!("the session was refused"),
    }
}

#[test]
fn a_failed_call_feeds_the_latency_too() {
    let mut counters = Counters::new();
    let reply = settle(Outcome::Answered(200, None), 8000, &mut counters);
    assert_eq!(reply, (200, json("{}")));
    let reply = settle(Outcome::Failed("late".to_string()), 16000, &mut counters);
    assert_eq!(reply, transport_failure("late"));
    assert_eq!(counters, Counters { inflight: 0, served: 0, shed: 0, latency_us: 9000 });
}
