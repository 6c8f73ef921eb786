use desk::realtime::{
    drain_step, events_route, live_events, live_subscribe, live_subscription, live_updates,
    subscribe_route, unsubscribe_route, LIVE_DRAIN_MS, UNSUBSCRIBED,
};
use desk::refusal::Refusal;
use serde_json::Value;

fn json(text: &str) -> Value {
    serde_json::from_str(text).unwrap()
}

#[test]
fn the_script_names_its_table_and_survives_escaping() {
    let script = live_updates("sales_invoice");
    assert!(script.starts_with("(function () {\n  var TABLE = \"sales_invoice\";\n  var sub = null"));
    assert!(script.ends_with("\n  if (!document.hidden) start();\n})();"));
    assert!(!script.contains(['<', '>', '&']));
    assert_eq!(script.lines().count(), 75);
    for part in [
        "es = new EventSource(\"/live/sse/\" + TABLE);",
        "fetch(\"/live/subscribe/\" + TABLE, { method: \"POST\" })",
        "fetch(\"/live/events/\" + sub, { method: \"POST\" })",
        "navigator.sendBeacon(\"/live/unsubscribe/\" + sub)",
        "if (window.__frustOnTick) window.__frustOnTick(); else location.reload();",
        "document.addEventListener(\"visibilitychange\", function () {",
    ] {
        assert!(script.contains(part), "{part}");
    }
    assert_eq!(script.matches('{').count(), script.matches('}').count());
    assert_eq!(script.matches('(').count(), script.matches(')').count());
}

#[test]
fn routes_carry_the_table_or_the_subscription() {
    assert_eq!(subscribe_route("t"), "/subscribe/t");
    assert_eq!(events_route("s1"), "/events/s1");
    assert_eq!(unsubscribe_route("s1"), "/unsubscribe/s1");
    assert_eq!(LIVE_DRAIN_MS, 1000);
    assert_eq!(json(UNSUBSCRIBED), json(r#"{ "ok": true }"#));
}

#[test]
fn a_subscription_is_the_kernel_s_answer_or_a_refusal() {
    let body = json(r#"{ "sub": "s1", "alive": true }"#);
    assert_eq!(live_subscribe(200, &body).as_deref(), Ok(r#"{"alive":true,"sub":"s1"}"#));
    assert_eq!(live_subscription(200, &body).as_deref(), Ok("s1"));
    for code in [429, 401, 500, 201] {
        let refused = Refusal::BadRequest("live unavailable".to_string());
        assert_eq!(refused.status(), 400);
        assert_eq!(live_subscribe(code, &body), Err(refused));
        assert_eq!(
            live_subscription(code, &body),
            Err(Refusal::BadRequest("live unavailable".to_string()))
        );
    }
    assert_eq!(live_subscription(200, &json("{}")).as_deref(), Ok(""));
    assert_eq!(live_subscription(200, &json(r#"{ "sub": 7 }"#)).as_deref(), Ok(""));
}

#[test]
fn events_are_the_kernel_s_answer_or_a_refusal() {
    let body = json(r#"{ "events": [{ "action": "UPDATE", "id": "t:1" }] }"#);
    assert_eq!(
        live_events(200, &body).as_deref(),
        Ok(r#"{"events":[{"action":"UPDATE","id":"t:1"}]}"#)
    );
    assert_eq!(
        live_events(404, &body),
        Err(Refusal::BadRequest("subscription gone".to_string()))
    );
}

#[test]
fn one_event_stands_for_a_batch() {
    let event = drain_step(200, &json(r#"{ "alive": true, "events": [1, 2, 3] }"#)).unwrap();
    assert_eq!((event.name, event.data.as_str()), ("tick", "3"));
    for body in [
        r#"{ "alive": true, "events": [] }"#,
        r#"{ "alive": true }"#,
        r#"{ "alive": true, "events": 4 }"#,
    ] {
        let event = drain_step(200, &json(body)).unwrap();
        assert_eq!((event.name, event.data.as_str()), ("idle", "0"));
    }
}

#[test]
fn a_dead_subscription_ends_the_stream() {
    assert!(drain_step(404, &json(r#"{ "alive": true, "events": [1] }"#)).is_none());
    assert!(drain_step(200, &json(r#"{ "alive": false, "events": [1] }"#)).is_none());
    assert!(drain_step(200, &json(r#"{ "alive": "true" }"#)).is_none());
    assert!(drain_step(200, &json("{}")).is_none());
}
