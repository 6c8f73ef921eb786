//! What the Desk sends the kernel and what it makes of the answers. The call
//! itself is the caller's.
use vstd::prelude::*;
use vstd::string::*;
use crate::admission::{record_latency, smoothed, Counters};
use crate::json::{
    get_text, index, json_source, json_view, member_or_null, object, object_view, pair_views_of,
    source, string, text_member, JsonView,
};
use crate::refusal::{at_capacity, to_login, Refusal, RefusalView};
use crate::text::{contains, contains_text, same_text};
use serde_json::Value;

verus! {

/// Where the kernel is, unless configured otherwise.
pub const DEFAULT_BASE: &'static str = "http://127.0.0.1:8790";

/// The status that stands for a kernel that could not be reached.
pub const TRANSPORT_STATUS: u16 = 502;

/// The limits of the one agent that carries every kernel call.
pub struct AgentLimits {
    /// Seconds until a connection attempt is given up.
    pub connect_secs: u64,
    /// Seconds until a whole call is given up.
    pub global_secs: u64,
    /// Idle connections kept, in all and per host.
    pub idle_connections: usize,
}

/// The agent's limits: the pool is sized to the connections that the Desk will
/// hold open, which is the admission ceiling, within reason.
pub fn agent_limits(max_inflight: usize) -> (limits: AgentLimits)
    ensures
        limits.connect_secs == 10,
        limits.global_secs == 60,
        limits.idle_connections == (if max_inflight < 8 {
            8
        } else if max_inflight > 64 {
            64
        } else {
            max_inflight
        }),
{
    let idle: usize = if max_inflight < 8 {
        8
    } else if max_inflight > 64 {
        64
    } else {
        max_inflight
    };
    AgentLimits { connect_secs: 10, global_secs: 60, idle_connections: idle }
}

/// Where the kernel is, from the text that the environment configures.
pub fn base(configured: Option<&str>) -> (url: String)
    ensures
        url@ == (match configured {
            Some(text) => text@,
            None => DEFAULT_BASE@,
        }),
{
    match configured {
        Some(text) => text.to_string(),
        None => DEFAULT_BASE.to_string(),
    }
}

/// A kernel request, as it goes over the wire.
pub struct KernelRequest {
    pub url: String,
    /// The `Authorization` header.
    pub authorization: Option<String>,
    /// The body of a POST; none for a GET.
    pub body: Option<String>,
}

/// A kernel call under a session's token: a POST with a JSON body, or a GET
/// where there is none.
pub fn kernel_request(
    base: &str,
    token: Option<&str>,
    route: &str,
    body: Option<&Value>,
) -> (request: KernelRequest)
    ensures
        request.url@ == base@ + route@,
        match token {
            Some(t) => request.authorization matches Some(header) && header@ == "Bearer "@ + t@,
            None => request.authorization is None,
        },
        match body {
            Some(value) => request.body matches Some(text) && text@ == json_source(
                json_view(*value),
            ),
            None => request.body is None,
        },
{
    let authorization = match token {
        Some(t) => Some("Bearer ".to_string().concat(t)),
        None => None,
    };
    let text = match body {
        Some(value) => Some(source(value)),
        None => None,
    };
    KernelRequest { url: base.to_string().concat(route), authorization, body: text }
}

/// An empty object: the body of a call that says all in its route.
pub fn empty_body() -> (body: Value)
    ensures
        json_view(body) == object_view(Seq::empty()),
{
    let members: Vec<(String, Value)> = Vec::new();
    proof {
        assert(pair_views_of(members@) == Seq::<(Seq<char>, JsonView)>::empty());
    }
    object(members)
}

/// The body that stands for a failure to reach the kernel.
pub open spec fn transport_body(detail: Seq<char>) -> JsonView {
    object_view(
        seq![
            (
                "error"@,
                object_view(
                    seq![
                        ("kind"@, JsonView::Text("transport"@)),
                        ("detail"@, JsonView::Text(detail)),
                    ],
                ),
            ),
        ],
    )
}

/// What stands for a failure to reach the kernel: a status of its own and a
/// typed error.
pub fn transport_failure(detail: &str) -> (reply: (u16, Value))
    ensures
        reply.0 == TRANSPORT_STATUS,
        json_view(reply.1) == transport_body(detail@),
{
    let mut members: Vec<(String, Value)> = Vec::new();
    members.push(("kind".to_string(), string("transport")));
    members.push(("detail".to_string(), string(detail)));
    let ghost inner = pair_views_of(members@);
    let mut whole: Vec<(String, Value)> = Vec::new();
    proof {
        assert(inner =~= seq![
            ("kind"@, JsonView::Text("transport"@)),
            ("detail"@, JsonView::Text(detail@)),
        ]);
        reveal_strlit("kind");
        reveal_strlit("detail");
        assert("kind"@.len() != "detail"@.len());
    }
    whole.push(("error".to_string(), object(members)));
    proof {
        assert(pair_views_of(whole@) =~= seq![("error"@, object_view(inner))]);
    }
    (TRANSPORT_STATUS, object(whole))
}

/// What came of a call: the status with the body, where that was JSON, or the
/// words of the failure to get one.
pub enum Outcome {
    Answered(u16, Option<Value>),
    Failed(String),
}

/// The status that the Desk goes on with.
pub open spec fn reply_code(outcome: Outcome) -> u16 {
    match outcome {
        Outcome::Answered(code, _) => code,
        Outcome::Failed(_) => TRANSPORT_STATUS,
    }
}

/// The body that the Desk goes on with.
pub open spec fn reply_body(outcome: Outcome) -> JsonView {
    match outcome {
        Outcome::Answered(_, Some(value)) => json_view(value),
        Outcome::Answered(_, None) => object_view(Seq::empty()),
        Outcome::Failed(words) => transport_body(words@),
    }
}

/// The reply that the Desk goes on with: whatever status came, so that a typed
/// error can be put into words; an empty object where the body was no JSON.
pub fn kernel_reply(outcome: Outcome) -> (reply: (u16, Value))
    ensures
        reply.0 == reply_code(outcome),
        json_view(reply.1) == reply_body(outcome),
{
    match outcome {
        Outcome::Answered(code, body) => match body {
            Some(value) => (code, value),
            None => (code, empty_body()),
        },
        Outcome::Failed(words) => transport_failure(words.as_str()),
    }
}

/// Settles a call that took `us` microseconds. The latency is fed whether the call
/// succeeded or failed: a slow failure is the strongest evidence of saturation.
pub fn settle(outcome: Outcome, us: u64, counters: &mut Counters) -> (reply: (u16, Value))
    ensures
        reply.0 == reply_code(outcome),
        json_view(reply.1) == reply_body(outcome),
        *final(counters) == (Counters {
            latency_us: smoothed(old(counters).latency_us, us),
            ..*old(counters)
        }),
{
    record_latency(counters, us);
    kernel_reply(outcome)
}

/// The typed error of a kernel's answer, or null.
pub open spec fn error_of(body: JsonView) -> JsonView {
    member_or_null(body, "error"@)
}

/// The text of the member `key`, or nothing.
pub open spec fn text_or_empty(content: JsonView, key: Seq<char>) -> Seq<char> {
    match text_member(content, key) {
        Some(text) => text,
        None => Seq::empty(),
    }
}

/// What a rejected document is told, where the rule gives no words.
pub open spec fn hook_words(error: JsonView) -> Seq<char> {
    match text_member(error, "message"@) {
        Some(words) => words,
        None => "the document was not accepted"@,
    }
}

/// A typed kernel error in words for the user.
pub open spec fn friendly_text(code: u16, body: JsonView) -> Seq<char> {
    let error = error_of(body);
    let kind = text_or_empty(error, "kind"@);
    let detail = text_or_empty(error, "detail"@);
    if kind == "hook-rejected"@ {
        "Rejected by a validation rule: "@ + hook_words(error)
    } else if kind == "identity-unresolved"@ {
        "Your identity could not be resolved — contact an administrator."@
    } else if kind == "permission-denied"@ && code == 401 {
        "Your session has expired — please log in again."@
    } else if kind == "permission-denied"@ {
        "You don't have permission to do that."@
    } else if kind == "field-not-readable"@ {
        "You don't have permission to see one of those fields."@
    } else if kind == "unknown-doctype"@ {
        "That DocType does not exist."@
    } else if kind == "invalid-value"@ {
        "Invalid input: "@ + detail
    } else if kind == "write-conflict-exhausted"@ {
        "The system is busy — please try again."@
    } else if kind == "db"@ && contains_text(detail, "FRUST:E_DOCSTATUS:RESURRECTION"@) {
        "This document is cancelled; it can never be edited again."@
    } else if kind == "db"@ && contains_text(detail, "FRUST:E_DOCSTATUS"@) {
        "That lifecycle transition is not allowed."@
    } else if kind == "workflow-denied"@ {
        detail
    } else if kind == "db"@ && contains_text(detail, "FRUST:E_IDENTITY_UNRESOLVED"@) {
        "Your identity could not be resolved — contact an administrator."@
    } else {
        "Something went wrong on the server."@
    }
}

fn get_text_or_empty<'a>(value: &'a Value, key: &str) -> (text: &'a str)
    ensures
        text@ == text_or_empty(json_view(*value), key@),
{
    match get_text(value, key) {
        Some(text) => text,
        None => {
            proof {
                reveal_strlit("");
                assert(""@ == Seq::<char>::empty());
            }
            ""
        },
    }
}

/// Puts a typed kernel error into words for the user. Engine internals stay
/// out of the page: machine codes are translated and the database's own wording
/// is dropped.
pub fn friendly(code: u16, body: &Value) -> (words: String)
    ensures
        words@ == friendly_text(code, json_view(*body)),
{
    let error = index(body, "error");
    let kind = get_text_or_empty(error, "kind");
    let detail = get_text_or_empty(error, "detail");
    if same_text(kind, "hook-rejected") {
        let words = match get_text(error, "message") {
            Some(message) => message,
            None => "the document was not accepted",
        };
        "Rejected by a validation rule: ".to_string().concat(words)
    } else if same_text(kind, "identity-unresolved") {
        "Your identity could not be resolved — contact an administrator.".to_string()
    } else if same_text(kind, "permission-denied") && code == 401 {
        "Your session has expired — please log in again.".to_string()
    } else if same_text(kind, "permission-denied") {
        "You don't have permission to do that.".to_string()
    } else if same_text(kind, "field-not-readable") {
        "You don't have permission to see one of those fields.".to_string()
    } else if same_text(kind, "unknown-doctype") {
        "That DocType does not exist.".to_string()
    } else if same_text(kind, "invalid-value") {
        "Invalid input: ".to_string().concat(detail)
    } else if same_text(kind, "write-conflict-exhausted") {
        "The system is busy — please try again.".to_string()
    } else if same_text(kind, "db") && contains(detail, "FRUST:E_DOCSTATUS:RESURRECTION") {
        "This document is cancelled; it can never be edited again.".to_string()
    } else if same_text(kind, "db") && contains(detail, "FRUST:E_DOCSTATUS") {
        "That lifecycle transition is not allowed.".to_string()
    } else if same_text(kind, "workflow-denied") {
        detail.to_string()
    } else if same_text(kind, "db") && contains(detail, "FRUST:E_IDENTITY_UNRESOLVED") {
        "Your identity could not be resolved — contact an administrator.".to_string()
    } else {
        "Something went wrong on the server.".to_string()
    }
}

/// What a kernel status that is no success is answered with.
pub open spec fn refusal_for(code: u16, body: JsonView) -> RefusalView {
    if code == 401 {
        to_login()
    } else if code == 429 || code == 503 || code == TRANSPORT_STATUS {
        at_capacity()
    } else {
        RefusalView::Internal(friendly_text(code, body))
    }
}

/// Turns a kernel status into the Desk's answer honestly: no session goes to
/// the login page, a capacity answer stays one, and so does a failure to reach
/// the kernel, which under load is congestion; anything else failed.
pub fn kernel_status(code: u16, body: &Value) -> (refusal: Refusal)
    ensures
        refusal@ == refusal_for(code, json_view(*body)),
{
    if code == 401 {
        Refusal::login()
    } else if code == 429 || code == 503 || code == TRANSPORT_STATUS {
        Refusal::busy()
    } else {
        Refusal::Internal(friendly(code, body))
    }
}

/// A session. The kernel owns it; the Desk only carries the cookies.
pub struct Session {
    pub token: String,
    pub user: String,
    pub role: String,
}

/// The session that a request's cookies carry: none without a token; a missing
/// user or role is empty.
pub fn session(token: Option<&str>, user: Option<&str>, role: Option<&str>) -> (session: Option<
    Session,
>)
    ensures
        match token {
            Some(t) => session matches Some(s) && s.token@ == t@ && s.user@ == (match user {
                Some(text) => text@,
                None => Seq::empty(),
            }) && s.role@ == (match role {
                Some(text) => text@,
                None => Seq::empty(),
            }),
            None => session is None,
        },
{
    match token {
        Some(t) => {
            let user = match user {
                Some(text) => text.to_string(),
                None => String::new(),
            };
            let role = match role {
                Some(text) => text.to_string(),
                None => String::new(),
            };
            Some(Session { token: t.to_string(), user, role })
        },
        None => None,
    }
}

/// The session, or the way to the login page.
pub fn require_session(session: Option<Session>) -> (required: Result<Session, Refusal>)
    ensures
        match session {
            Some(s) => required == Ok::<Session, Refusal>(s),
            None => required matches Err(refusal) && refusal@ == to_login(),
        },
{
    match session {
        Some(s) => Ok(s),
        None => Err(Refusal::login()),
    }
}

/// A capacity answer survives the hop: whatever the body says, it is answered
/// as capacity and never as a failure.
pub proof fn law_capacity_survives_the_hop(code: u16, body: JsonView)
    requires
        code == 429 || code == 502 || code == 503,
    ensures
        refusal_for(code, body) == at_capacity(),
        crate::refusal::status_of(refusal_for(code, body)) == 503,
{
}

/// The kernel's word for a lost session sends the user to the login page; no
/// other status does.
pub proof fn law_only_a_lost_session_redirects(code: u16, body: JsonView)
    ensures
        refusal_for(code, body) is Redirect <==> code == 401,
{
}

/// A failure to reach the kernel is answered as capacity.
pub proof fn law_transport_failure_is_capacity(detail: Seq<char>)
    ensures
        refusal_for(TRANSPORT_STATUS, transport_body(detail)) == at_capacity(),
{
}

/// The fixed sentences.
pub open spec fn is_fixed_sentence(words: Seq<char>) -> bool {
    ||| words == "Your identity could not be resolved — contact an administrator."@
    ||| words == "Your session has expired — please log in again."@
    ||| words == "You don't have permission to do that."@
    ||| words == "You don't have permission to see one of those fields."@
    ||| words == "That DocType does not exist."@
    ||| words == "The system is busy — please try again."@
    ||| words == "This document is cancelled; it can never be edited again."@
    ||| words == "That lifecycle transition is not allowed."@
    ||| words == "Something went wrong on the server."@
}

/// The kinds of error whose words come from the kernel, which are written for
/// the user.
pub open spec fn carries_words(kind: Seq<char>) -> bool {
    kind == "hook-rejected"@ || kind == "invalid-value"@ || kind == "workflow-denied"@
}

/// Engine internals stay out of the page: but for the kinds that carry words
/// for the user, what is shown is one of the fixed sentences, whatever the error
/// holds.
pub proof fn law_engine_words_stay_out(code: u16, body: JsonView)
    requires
        !carries_words(text_or_empty(error_of(body), "kind"@)),
    ensures
        is_fixed_sentence(friendly_text(code, body)),
{
}

/// A workflow's refusal is shown word for word.
pub proof fn law_workflow_refusal_is_verbatim(code: u16, body: JsonView)
    requires
        text_or_empty(error_of(body), "kind"@) == "workflow-denied"@,
    ensures
        friendly_text(code, body) == text_or_empty(error_of(body), "detail"@),
{
    reveal_strlit("workflow-denied");
    reveal_strlit("hook-rejected");
    reveal_strlit("identity-unresolved");
    reveal_strlit("permission-denied");
    reveal_strlit("field-not-readable");
    reveal_strlit("unknown-doctype");
    reveal_strlit("invalid-value");
    reveal_strlit("write-conflict-exhausted");
    reveal_strlit("db");
    assert("workflow-denied"@[0] == 'w');
    assert("hook-rejected"@[0] == 'h');
    assert("identity-unresolved"@[0] == 'i');
    assert("permission-denied"@[0] == 'p');
    assert("field-not-readable"@[0] == 'f');
    assert("unknown-doctype"@[0] == 'u');
    assert("invalid-value"@[0] == 'i');
    assert("write-conflict-exhausted"@[1] == 'r');
    assert("workflow-denied"@[1] == 'o');
    assert("db"@[0] == 'd');
}

} // verus!
