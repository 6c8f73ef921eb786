//! What the Desk makes of every answer of the kernel, said over the answer's own
//! members.
use vstd::prelude::*;
use crate::json::{distinct_keys, json_view, law_object_holds_its_pairs, JsonView};
use crate::kernel::{
    error_of, friendly_text, refusal_for, reply_body, reply_code, text_or_empty, transport_body,
    Outcome,
};
use crate::refusal::{at_capacity, status_of, to_login, RefusalView};
use crate::text::{contains_text, occurs_at};
use serde_json::Value;

verus! {

/// The answer is an object with an `error`, which is an object with these members.
pub open spec fn has_error(body: JsonView, error: Map<Seq<char>, JsonView>) -> bool {
    body matches JsonView::Members(members) && members.contains_key("error"@)
        && members["error"@] == JsonView::Members(error)
}

/// The error has that text under that key.
pub open spec fn says(error: Map<Seq<char>, JsonView>, key: Seq<char>, text: Seq<char>) -> bool {
    error.contains_key(key) && error[key] == JsonView::Text(text)
}

/// The error has no text under that key.
pub open spec fn is_silent(error: Map<Seq<char>, JsonView>, key: Seq<char>) -> bool {
    !error.contains_key(key) || !(error[key] is Text)
}

/// The words stand somewhere in the text.
pub open spec fn mentions(text: Seq<char>, words: Seq<char>) -> bool {
    exists|front: Seq<char>, back: Seq<char>| text == #[trigger] (front + words + back)
}

proof fn lemma_mentions(text: Seq<char>, words: Seq<char>)
    ensures
        mentions(text, words) <==> contains_text(text, words),
{
    if mentions(text, words) {
        let (front, back) = choose|front: Seq<char>, back: Seq<char>|
            text == #[trigger] (front + words + back);
        let at = front.len() as int;
        assert(text.subrange(at, at + words.len()) =~= words);
        assert(occurs_at(text, words, at));
    }
    if contains_text(text, words) {
        let at = choose|at: int| occurs_at(text, words, at);
        let front = text.take(at);
        let back = text.skip(at + words.len());
        assert(text =~= front + words + back);
    }
}

/// The kinds of error are distinct words.
proof fn lemma_kinds()
    ensures
        "hook-rejected"@[0] == 'h',
        "identity-unresolved"@[0] == 'i',
        "identity-unresolved"@[1] == 'd',
        "permission-denied"@[0] == 'p',
        "field-not-readable"@[0] == 'f',
        "unknown-doctype"@[0] == 'u',
        "invalid-value"@[0] == 'i',
        "invalid-value"@[1] == 'n',
        "write-conflict-exhausted"@[0] == 'w',
        "write-conflict-exhausted"@[1] == 'r',
        "workflow-denied"@[0] == 'w',
        "workflow-denied"@[1] == 'o',
        "db"@[0] == 'd',
{
    reveal_strlit("workflow-denied");
    reveal_strlit("hook-rejected");
    reveal_strlit("identity-unresolved");
    reveal_strlit("permission-denied");
    reveal_strlit("field-not-readable");
    reveal_strlit("unknown-doctype");
    reveal_strlit("invalid-value");
    reveal_strlit("write-conflict-exhausted");
    reveal_strlit("db");
}

/// Kinds of error with one sentence each, whatever else the error holds.
pub proof fn law_words_of_the_plain_kinds(
    code: u16,
    body: JsonView,
    error: Map<Seq<char>, JsonView>,
)
    requires
        has_error(body, error),
    ensures
        says(error, "kind"@, "identity-unresolved"@) ==> friendly_text(code, body)
            == "Your identity could not be resolved — contact an administrator."@,
        says(error, "kind"@, "permission-denied"@) && code == 401 ==> friendly_text(code, body)
            == "Your session has expired — please log in again."@,
        says(error, "kind"@, "permission-denied"@) && code != 401 ==> friendly_text(code, body)
            == "You don't have permission to do that."@,
        says(error, "kind"@, "field-not-readable"@) ==> friendly_text(code, body)
            == "You don't have permission to see one of those fields."@,
        says(error, "kind"@, "unknown-doctype"@) ==> friendly_text(code, body)
            == "That DocType does not exist."@,
        says(error, "kind"@, "write-conflict-exhausted"@) ==> friendly_text(code, body)
            == "The system is busy — please try again."@,
{
    lemma_kinds();
}

/// Kinds of error whose own words are shown: those of the rule, of the value and of
/// the workflow, as they are.
pub proof fn law_words_that_the_error_carries(
    code: u16,
    body: JsonView,
    error: Map<Seq<char>, JsonView>,
    words: Seq<char>,
)
    requires
        has_error(body, error),
    ensures
        says(error, "kind"@, "hook-rejected"@) && says(error, "message"@, words) ==> friendly_text(
            code,
            body,
        ) == "Rejected by a validation rule: "@ + words,
        says(error, "kind"@, "hook-rejected"@) && is_silent(error, "message"@) ==> friendly_text(
            code,
            body,
        ) == "Rejected by a validation rule: "@ + "the document was not accepted"@,
        says(error, "kind"@, "invalid-value"@) && says(error, "detail"@, words) ==> friendly_text(
            code,
            body,
        ) == "Invalid input: "@ + words,
        says(error, "kind"@, "invalid-value"@) && is_silent(error, "detail"@) ==> friendly_text(
            code,
            body,
        ) == "Invalid input: "@,
        says(error, "kind"@, "workflow-denied"@) && says(error, "detail"@, words) ==> friendly_text(
            code,
            body,
        ) == words,
        says(error, "kind"@, "workflow-denied"@) && is_silent(error, "detail"@) ==> friendly_text(
            code,
            body,
        ) == Seq::<char>::empty(),
{
    lemma_kinds();
    if is_silent(error, "detail"@) {
        assert(text_or_empty(JsonView::Members(error), "detail"@) == Seq::<char>::empty());
        assert("Invalid input: "@ + Seq::<char>::empty() =~= "Invalid input: "@);
    }
}

/// The database's own words are never shown; a machine code that they mention, wherever
/// it stands in them, is put into a sentence, and anything else is a failure.
pub proof fn law_words_of_the_database(
    code: u16,
    body: JsonView,
    error: Map<Seq<char>, JsonView>,
    detail: Seq<char>,
)
    requires
        has_error(body, error),
        says(error, "kind"@, "db"@),
    ensures
        says(error, "detail"@, detail) ==> {
            let cancelled = mentions(detail, "FRUST:E_DOCSTATUS:RESURRECTION"@);
            let lifecycle = mentions(detail, "FRUST:E_DOCSTATUS"@);
            let identity = mentions(detail, "FRUST:E_IDENTITY_UNRESOLVED"@);
            &&& cancelled ==> friendly_text(code, body)
                == "This document is cancelled; it can never be edited again."@
            &&& lifecycle && !cancelled ==> friendly_text(code, body)
                == "That lifecycle transition is not allowed."@
            &&& identity && !lifecycle && !cancelled ==> friendly_text(code, body)
                == "Your identity could not be resolved — contact an administrator."@
            &&& !identity && !lifecycle && !cancelled ==> friendly_text(code, body)
                == "Something went wrong on the server."@
        },
        is_silent(error, "detail"@) ==> friendly_text(code, body)
            == "Something went wrong on the server."@,
{
    lemma_kinds();
    lemma_mentions(detail, "FRUST:E_DOCSTATUS:RESURRECTION"@);
    lemma_mentions(detail, "FRUST:E_DOCSTATUS"@);
    lemma_mentions(detail, "FRUST:E_IDENTITY_UNRESOLVED"@);
    if is_silent(error, "detail"@) {
        let none = Seq::<char>::empty();
        reveal_strlit("FRUST:E_DOCSTATUS:RESURRECTION");
        reveal_strlit("FRUST:E_DOCSTATUS");
        reveal_strlit("FRUST:E_IDENTITY_UNRESOLVED");
        assert(text_or_empty(JsonView::Members(error), "detail"@) == none);
        assert(!contains_text(none, "FRUST:E_DOCSTATUS:RESURRECTION"@));
        assert(!contains_text(none, "FRUST:E_DOCSTATUS"@));
        assert(!contains_text(none, "FRUST:E_IDENTITY_UNRESOLVED"@));
    }
}

/// The kind is one that has words of its own.
pub open spec fn is_known_kind(kind: Seq<char>) -> bool {
    ||| kind == "hook-rejected"@
    ||| kind == "identity-unresolved"@
    ||| kind == "permission-denied"@
    ||| kind == "field-not-readable"@
    ||| kind == "unknown-doctype"@
    ||| kind == "invalid-value"@
    ||| kind == "write-conflict-exhausted"@
    ||| kind == "workflow-denied"@
    ||| kind == "db"@
}

/// An answer without a typed error, or with one of another kind, is a failure that says
/// no more.
pub proof fn law_words_of_anything_else(code: u16, body: JsonView)
    requires
        ({
            ||| !(body is Members)
            ||| !body->Members_0.contains_key("error"@)
            ||| !(body->Members_0["error"@] is Members)
            ||| is_silent(body->Members_0["error"@]->Members_0, "kind"@)
            ||| !is_known_kind(body->Members_0["error"@]->Members_0["kind"@]->Text_0)
        }),
    ensures
        friendly_text(code, body) == "Something went wrong on the server."@,
{
    lemma_kinds();
    reveal_strlit("hook-rejected");
    reveal_strlit("identity-unresolved");
    reveal_strlit("permission-denied");
    reveal_strlit("field-not-readable");
    reveal_strlit("unknown-doctype");
    reveal_strlit("invalid-value");
    reveal_strlit("write-conflict-exhausted");
    reveal_strlit("workflow-denied");
    reveal_strlit("db");
    let kind = text_or_empty(error_of(body), "kind"@);
    if kind.len() == 0 {
        assert(!is_known_kind(kind));
    }
}

/// A status is answered for what it is: a lost session with the way to the login page,
/// capacity with a wait of two seconds, anything else as a failure in the words for the
/// error. Each has its HTTP status.
pub proof fn law_answer_to_a_status(code: u16, body: JsonView)
    ensures
        code == 401 ==> refusal_for(code, body) == RefusalView::Redirect("/login"@),
        code == 429 || code == 502 || code == 503 ==> refusal_for(code, body)
            == RefusalView::Busy(2),
        code != 401 && code != 429 && code != 502 && code != 503 ==> refusal_for(code, body)
            == RefusalView::Internal(friendly_text(code, body)),
        to_login() == RefusalView::Redirect("/login"@),
        at_capacity() == RefusalView::Busy(2),
{
}

/// The HTTP status of each answer.
pub proof fn law_status_of_each_answer(words: Seq<char>, secs: nat)
    ensures
        status_of(RefusalView::Redirect(words)) == 307,
        status_of(RefusalView::Busy(secs)) == 503,
        status_of(RefusalView::BadRequest(words)) == 400,
        status_of(RefusalView::Internal(words)) == 500,
{
}

/// A reply is the answer that came: its own status whatever that is, with its own body,
/// or an empty object where that was no JSON. A call that failed is status 502 with an
/// error of kind `transport` and the failure's words.
pub proof fn law_reply_is_the_answer(code: u16, value: Value, words: String)
    ensures
        reply_code(Outcome::Answered(code, Some(value))) == code,
        reply_body(Outcome::Answered(code, Some(value))) == json_view(value),
        reply_code(Outcome::Answered(code, None)) == code,
        reply_body(Outcome::Answered(code, None)) == JsonView::Members(Map::empty()),
        reply_code(Outcome::Failed(words)) == 502,
        ({
            let body = reply_body(Outcome::Failed(words));
            &&& body is Members
            &&& body->Members_0.dom() == set!["error"@]
            &&& body->Members_0["error"@] is Members
            &&& body->Members_0["error"@]->Members_0.dom() == set!["kind"@, "detail"@]
            &&& has_error(body, body->Members_0["error"@]->Members_0)
            &&& says(body->Members_0["error"@]->Members_0, "kind"@, "transport"@)
            &&& says(body->Members_0["error"@]->Members_0, "detail"@, words@)
        }),
{
    let inner = seq![
        ("kind"@, JsonView::Text("transport"@)),
        ("detail"@, JsonView::Text(words@)),
    ];
    reveal_strlit("kind");
    reveal_strlit("detail");
    assert("kind"@.len() != "detail"@.len());
    assert(distinct_keys(inner));
    law_object_holds_its_pairs(inner);
    let outer = seq![("error"@, crate::json::object_view(inner))];
    law_object_holds_its_pairs(outer);
    let body = transport_body(words@);
    assert(outer[0].0 == "error"@);
    assert(inner[0].0 == "kind"@ && inner[1].0 == "detail"@);
    assert(body == crate::json::object_view(outer));
    assert(body->Members_0.dom() =~= set!["error"@]);
    assert(body->Members_0["error"@]->Members_0.dom() =~= set!["kind"@, "detail"@]);
}

} // verus!
