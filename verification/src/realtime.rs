//! Live updates: a view that someone is looking at hears of changes to its
//! table. The stream only says that there is something to read; the page reads
//! it through the same door as before.
use vstd::prelude::*;
use vstd::string::*;
use crate::decimal::{decimal_text, numeral};
use crate::digits::{is_run, law_numeral_names_its_number, worth};
use crate::json::{
    as_array, as_bool, as_str, index, json_source, json_view, member_or_null, source, text_in,
    JsonView,
};
use crate::refusal::{Refusal, RefusalView};
use crate::text::joined;
use serde_json::Value;

verus! {

/// How often the kernel is asked on a subscriber's behalf, in milliseconds.
pub const LIVE_DRAIN_MS: u64 = 1000;

/// What a page is told that gave its subscription up.
pub const UNSUBSCRIBED: &'static str = "{\"ok\":true}";

/// The script of a live page, up to the name of its table.
pub const SCRIPT_OPEN: &'static str = "(function () {\n  var TABLE = \"";

/// The script of a live page, from behind the name of its table, line by line.
/// The stream is the transport, asking in turns the fallback; both stop when the
/// page is hidden.
pub const SCRIPT_REST: &'static [&'static str; 74] = &[
    "\";\n",
    "  var sub = null, timer = null, stopped = false;\n",
    "  var es = null, sseFailed = false;\n",
    "\n",
    "  // SSE is the transport; polling below is the FALLBACK.\n",
    "  // Realtime stays an enhancement — if the stream never establishes, or the\n",
    "  // browser has no EventSource, the page degrades to the old poll and keeps\n",
    "  // working. `onTick` is shared, so the dirty-guard contract is\n",
    "  // identical on both paths.\n",
    "  function onTick() {\n",
    "    if (window.__frustOnTick) window.__frustOnTick(); else location.reload();\n",
    "  }\n",
    "  function openSse() {\n",
    "    if (stopped) return;\n",
    "    if (typeof EventSource === \"undefined\") { sseFailed = true; open(); return; }\n",
    "    var opened = false;\n",
    "    es = new EventSource(\"/live/sse/\" + TABLE);\n",
    "    es.addEventListener(\"tick\", function () { opened = true; onTick(); });\n",
    "    es.addEventListener(\"idle\", function () { opened = true; });\n",
    "    es.onopen = function () { opened = true; };\n",
    "    es.onerror = function () {\n",
    "      // EventSource retries on its own; only a stream that NEVER opened is\n",
    "      // treated as unavailable (budget refusal, realtime off, no proxy support)\n",
    "      if (opened) return;\n",
    "      closeSse();\n",
    "      if (!sseFailed) { sseFailed = true; open(); }\n",
    "    };\n",
    "  }\n",
    "  function closeSse() {\n",
    "    if (es) { es.close(); es = null; }\n",
    "  }\n",
    "  function open() {\n",
    "    if (sub) return;\n",
    "    if (stopped) return;\n",
    "    fetch(\"/live/subscribe/\" + TABLE, { method: \"POST\" }).then(function (r) {\n",
    "      if (!r.ok) return null;                  // 429 budget: polling covers it\n",
    "      return r.json();\n",
    "    }).then(function (b) {\n",
    "      if (!b) return;\n",
    "      sub = b.sub;\n",
    "      timer = setInterval(poll, 3000);\n",
    "    }).catch(function () {});\n",
    "  }\n",
    "  function poll() {\n",
    "    if (!sub) return;\n",
    "    fetch(\"/live/events/\" + sub, { method: \"POST\" }).then(function (r) {\n",
    "      if (!r.ok) { close(); return null; }\n",
    "      return r.json();\n",
    "    }).then(function (b) {\n",
    "      if (!b) return;\n",
    "      // dead subscription: close() stops the poll timer and unsubscribes.\n",
    "      // recovery is NOT immediate — the list comes back on the next\n",
    "      // visibilitychange (start reopens the stream) or the 60 s meta-refresh\n",
    "      // fallback, whichever fires first.\n",
    "      if (!b.alive) { close(); return; }\n",
    "      // the dirty guard decides what a tick means:\n",
    "      // never stomp in-progress edits; a clean page still refreshes at once\n",
    "      if (b.events) { if (b.events.length) { onTick(); } }\n",
    "    }).catch(function () { close(); });\n",
    "  }\n",
    "  function close() {\n",
    "    if (timer) { clearInterval(timer); timer = null; }\n",
    "    if (sub) { navigator.sendBeacon(\"/live/unsubscribe/\" + sub); sub = null; }\n",
    "  }\n",
    "  function start() { if (sseFailed) open(); else openSse(); }\n",
    "  function stop() { closeSse(); close(); }\n",
    "  // becoming hidden stops the stream (the writer-tax rule: pay only for views\n",
    "  // someone is looking at); becoming visible resumes whichever transport is live\n",
    "  document.addEventListener(\"visibilitychange\", function () {\n",
    "    if (document.hidden) stop(); else start();\n",
    "  });\n",
    "  window.addEventListener(\"pagehide\", function () { stopped = true; stop(); });\n",
    "  if (!document.hidden) start();\n",
    "})();",
];

/// The script of a live page on a table.
pub open spec fn script_text(doctype: Seq<char>) -> Seq<char> {
    SCRIPT_OPEN@ + doctype + joined(SCRIPT_REST@.map_values(|line: &'static str| line@))
}

/// The kernel route that opens a subscription to a table.
pub open spec fn subscribe_path(table: Seq<char>) -> Seq<char> {
    "/subscribe/"@ + table
}

/// The kernel route that hands over what a subscription gathered.
pub open spec fn events_path(sub: Seq<char>) -> Seq<char> {
    "/events/"@ + sub
}

/// The kernel route that gives a subscription up.
pub open spec fn unsubscribe_path(sub: Seq<char>) -> Seq<char> {
    "/unsubscribe/"@ + sub
}

/// An event of a live stream.
pub struct LiveEvent {
    pub name: &'static str,
    pub data: String,
}

/// What an event says.
pub struct LiveEventView {
    pub name: Seq<char>,
    pub data: Seq<char>,
}

impl View for LiveEvent {
    type V = LiveEventView;

    open spec fn view(&self) -> LiveEventView {
        LiveEventView { name: self.name@, data: self.data@ }
    }
}

/// The subscription is alive, as the kernel's answer says.
pub open spec fn is_alive(body: JsonView) -> bool {
    member_or_null(body, "alive"@) == JsonView::Bool(true)
}

/// How many events the kernel's answer holds.
pub open spec fn event_count(body: JsonView) -> nat {
    match member_or_null(body, "events"@) {
        JsonView::Items(items) => items.len(),
        _ => 0,
    }
}

/// The event that stands for all that came with one answer: a tick where
/// something came, and how much. The page's answer to it is to read again, so
/// many ticks would mean what one means. None where the stream ends.
pub open spec fn next_event(code: u16, body: JsonView) -> Option<LiveEventView> {
    if code != 200 || !is_alive(body) {
        None
    } else {
        Some(
            LiveEventView {
                name: if event_count(body) > 0 {
                    "tick"@
                } else {
                    "idle"@
                },
                data: decimal_text(event_count(body)),
            },
        )
    }
}

/// The subscription that the kernel's answer opens.
pub open spec fn subscription_of(body: JsonView) -> Seq<char> {
    match text_in(member_or_null(body, "sub"@)) {
        Some(sub) => sub,
        None => Seq::empty(),
    }
}

/// The script of a live page on a table.
pub fn live_updates(doctype: &str) -> (script: String)
    ensures
        script@ == script_text(doctype@),
{
    let ghost lines = SCRIPT_REST@.map_values(|line: &'static str| line@);
    let ghost start = SCRIPT_OPEN@ + doctype@;
    let mut script = SCRIPT_OPEN.to_string().concat(doctype);
    let mut i: usize = 0;
    proof {
        assert(start + joined(lines.take(0)) =~= start);
    }
    while i < 74
        invariant
            i <= 74,
            SCRIPT_REST@.len() == 74,
            lines == SCRIPT_REST@.map_values(|line: &'static str| line@),
            script@ == start + joined(lines.take(i as int)),
        decreases 74 - i,
    {
        script.append(SCRIPT_REST[i]);
        i += 1;
        proof {
            assert(lines.take(i as int).drop_last() =~= lines.take(i - 1));
            assert(script@ =~= start + joined(lines.take(i as int)));
        }
    }
    proof {
        assert(lines.take(74) =~= lines);
    }
    script
}

/// The kernel route that opens a subscription to a table.
pub fn subscribe_route(table: &str) -> (route: String)
    ensures
        route@ == subscribe_path(table@),
{
    "/subscribe/".to_string().concat(table)
}

/// The kernel route that hands over what a subscription gathered.
pub fn events_route(sub: &str) -> (route: String)
    ensures
        route@ == events_path(sub@),
{
    "/events/".to_string().concat(sub)
}

/// The kernel route that gives a subscription up.
pub fn unsubscribe_route(sub: &str) -> (route: String)
    ensures
        route@ == unsubscribe_path(sub@),
{
    "/unsubscribe/".to_string().concat(sub)
}

/// The answer to a page that subscribes: the kernel's own, or a refusal, on
/// which the page goes on without. A spent budget is refused like any other
/// status.
pub fn live_subscribe(code: u16, body: &Value) -> (answer: Result<String, Refusal>)
    ensures
        match answer {
            Ok(text) => code == 200 && text@ == json_source(json_view(*body)),
            Err(refusal) => code != 200 && refusal@ == RefusalView::BadRequest("live unavailable"@),
        },
{
    if code != 200 {
        Err(Refusal::BadRequest("live unavailable".to_string()))
    } else {
        Ok(source(body))
    }
}

/// The answer to a page that asks for what its subscription gathered.
pub fn live_events(code: u16, body: &Value) -> (answer: Result<String, Refusal>)
    ensures
        match answer {
            Ok(text) => code == 200 && text@ == json_source(json_view(*body)),
            Err(refusal) => code != 200 && refusal@ == RefusalView::BadRequest("subscription gone"@),
        },
{
    if code != 200 {
        Err(Refusal::BadRequest("subscription gone".to_string()))
    } else {
        Ok(source(body))
    }
}

/// The subscription of a new stream, or a refusal of the stream, on which the
/// page falls back to asking.
pub fn live_subscription(code: u16, body: &Value) -> (sub: Result<String, Refusal>)
    ensures
        match sub {
            Ok(text) => code == 200 && text@ == subscription_of(json_view(*body)),
            Err(refusal) => code != 200 && refusal@ == RefusalView::BadRequest("live unavailable"@),
        },
{
    if code != 200 {
        return Err(Refusal::BadRequest("live unavailable".to_string()));
    }
    match as_str(index(body, "sub")) {
        Some(sub) => Ok(sub.to_string()),
        None => Ok(String::new()),
    }
}

/// The next event of a stream, from the kernel's answer about its subscription;
/// none where the stream ends.
pub fn drain_step(code: u16, body: &Value) -> (event: Option<LiveEvent>)
    ensures
        match event {
            Some(shown) => next_event(code, json_view(*body)) == Some(shown@),
            None => next_event(code, json_view(*body)) is None,
        },
{
    let alive = match as_bool(index(body, "alive")) {
        Some(flag) => flag,
        None => false,
    };
    if code != 200 || !alive {
        return None;
    }
    let count: usize = match as_array(index(body, "events")) {
        Some(items) => items.len(),
        None => 0,
    };
    let name = if count > 0 {
        "tick"
    } else {
        "idle"
    };
    Some(LiveEvent { name, data: numeral(count as u128) })
}

/// A stream ends as soon as the kernel refuses it or calls its subscription
/// dead, whatever else the answer holds; until then it goes on.
pub proof fn law_a_dead_subscription_ends_the_stream(code: u16, body: JsonView)
    ensures
        next_event(code, body) is None <==> code != 200 || !is_alive(body),
{
}

/// A page is told to read again if and only if something came, and one event
/// stands for all of it.
pub proof fn law_a_tick_means_that_something_came(code: u16, body: JsonView)
    requires
        next_event(code, body) is Some,
    ensures
        next_event(code, body)->0.name == "tick"@ <==> event_count(body) > 0,
        next_event(code, body)->0.name == "idle"@ <==> event_count(body) == 0,
{
    reveal_strlit("tick");
    reveal_strlit("idle");
    assert("tick"@[0] == 't');
    assert("idle"@[0] == 'i');
}

/// A character that a page's text shows as it is written: none that starts a
/// tag or an entity, nor ends a tag.
pub open spec fn is_plain_char(c: char) -> bool {
    c != '<' && c != '>' && c != '&'
}

/// A text of such characters.
pub open spec fn is_plain_text(s: Seq<char>) -> bool {
    forall|i: int| 0 <= i < s.len() ==> is_plain_char(#[trigger] s[i])
}

proof fn lemma_plain_concat(a: Seq<char>, b: Seq<char>)
    requires
        is_plain_text(a),
        is_plain_text(b),
    ensures
        is_plain_text(a + b),
{
    assert forall|i: int| 0 <= i < (a + b).len() implies is_plain_char(#[trigger] (a + b)[i]) by {
        if i < a.len() {
            assert(is_plain_char(a[i]));
        } else {
            assert(is_plain_char(b[i - a.len()]));
        }
    }
}

proof fn lemma_plain_joined(parts: Seq<Seq<char>>)
    requires
        forall|i: int| 0 <= i < parts.len() ==> is_plain_text(#[trigger] parts[i]),
    ensures
        is_plain_text(joined(parts)),
    decreases parts.len(),
{
    if parts.len() > 0 {
        assert forall|i: int| 0 <= i < parts.drop_last().len() implies is_plain_text(
            #[trigger] parts.drop_last()[i],
        ) by {
            assert(parts.drop_last()[i] == parts[i]);
        }
        lemma_plain_joined(parts.drop_last());
        assert(is_plain_text(parts[parts.len() - 1]));
        lemma_plain_concat(joined(parts.drop_last()), parts.last());
    }
}

proof fn lemma_plain_lines_0(i: int)
    requires
        0 <= i < 8,
    ensures
        is_plain_text(SCRIPT_REST@[i]@),
{
    reveal_strlit("\";\n");
    reveal_strlit("  var sub = null, timer = null, stopped = false;\n");
    reveal_strlit("  var es = null, sseFailed = false;\n");
    reveal_strlit("\n");
    reveal_strlit("  // SSE is the transport; polling below is the FALLBACK.\n");
    reveal_strlit("  // Realtime stays an enhancement — if the stream never establishes, or the\n");
    reveal_strlit("  // browser has no EventSource, the page degrades to the old poll and keeps\n");
    reveal_strlit("  // working. `onTick` is shared, so the dirty-guard contract is\n");
    assert(i == 0 || i == 1 || i == 2 || i == 3 || i == 4 || i == 5 || i == 6 || i == 7);
}

proof fn lemma_plain_lines_8(i: int)
    requires
        8 <= i < 16,
    ensures
        is_plain_text(SCRIPT_REST@[i]@),
{
    reveal_strlit("  // identical on both paths.\n");
    reveal_strlit("  function onTick() {\n");
    reveal_strlit("    if (window.__frustOnTick) window.__frustOnTick(); else location.reload();\n");
    reveal_strlit("  }\n");
    reveal_strlit("  function openSse() {\n");
    reveal_strlit("    if (stopped) return;\n");
    reveal_strlit("    if (typeof EventSource === \"undefined\") { sseFailed = true; open(); return; }\n");
    reveal_strlit("    var opened = false;\n");
    assert(i == 8 || i == 9 || i == 10 || i == 11 || i == 12 || i == 13 || i == 14 || i == 15);
}

proof fn lemma_plain_lines_16(i: int)
    requires
        16 <= i < 24,
    ensures
        is_plain_text(SCRIPT_REST@[i]@),
{
    reveal_strlit("    es = new EventSource(\"/live/sse/\" + TABLE);\n");
    reveal_strlit("    es.addEventListener(\"tick\", function () { opened = true; onTick(); });\n");
    reveal_strlit("    es.addEventListener(\"idle\", function () { opened = true; });\n");
    reveal_strlit("    es.onopen = function () { opened = true; };\n");
    reveal_strlit("    es.onerror = function () {\n");
    reveal_strlit("      // EventSource retries on its own; only a stream that NEVER opened is\n");
    reveal_strlit("      // treated as unavailable (budget refusal, realtime off, no proxy support)\n");
    reveal_strlit("      if (opened) return;\n");
    assert(i == 16 || i == 17 || i == 18 || i == 19 || i == 20 || i == 21 || i == 22 || i == 23);
}

proof fn lemma_plain_lines_24(i: int)
    requires
        24 <= i < 32,
    ensures
        is_plain_text(SCRIPT_REST@[i]@),
{
    reveal_strlit("      closeSse();\n");
    reveal_strlit("      if (!sseFailed) { sseFailed = true; open(); }\n");
    reveal_strlit("    };\n");
    reveal_strlit("  }\n");
    reveal_strlit("  function closeSse() {\n");
    reveal_strlit("    if (es) { es.close(); es = null; }\n");
    reveal_strlit("  function open() {\n");
    assert(i == 24 || i == 25 || i == 26 || i == 27 || i == 28 || i == 29 || i == 30 || i == 31);
}

proof fn lemma_plain_lines_32(i: int)
    requires
        32 <= i < 40,
    ensures
        is_plain_text(SCRIPT_REST@[i]@),
{
    reveal_strlit("    if (sub) return;\n");
    reveal_strlit("    if (stopped) return;\n");
    reveal_strlit("    fetch(\"/live/subscribe/\" + TABLE, { method: \"POST\" }).then(function (r) {\n");
    reveal_strlit("      if (!r.ok) return null;                  // 429 budget: polling covers it\n");
    reveal_strlit("      return r.json();\n");
    reveal_strlit("    }).then(function (b) {\n");
    reveal_strlit("      if (!b) return;\n");
    reveal_strlit("      sub = b.sub;\n");
    assert(i == 32 || i == 33 || i == 34 || i == 35 || i == 36 || i == 37 || i == 38 || i == 39);
}

proof fn lemma_plain_lines_40(i: int)
    requires
        40 <= i < 48,
    ensures
        is_plain_text(SCRIPT_REST@[i]@),
{
    reveal_strlit("      timer = setInterval(poll, 3000);\n");
    reveal_strlit("    }).catch(function () {});\n");
    reveal_strlit("  }\n");
    reveal_strlit("  function poll() {\n");
    reveal_strlit("    if (!sub) return;\n");
    reveal_strlit("    fetch(\"/live/events/\" + sub, { method: \"POST\" }).then(function (r) {\n");
    reveal_strlit("      if (!r.ok) { close(); return null; }\n");
    reveal_strlit("      return r.json();\n");
    assert(i == 40 || i == 41 || i == 42 || i == 43 || i == 44 || i == 45 || i == 46 || i == 47);
}

proof fn lemma_plain_lines_48(i: int)
    requires
        48 <= i < 56,
    ensures
        is_plain_text(SCRIPT_REST@[i]@),
{
    reveal_strlit("    }).then(function (b) {\n");
    reveal_strlit("      if (!b) return;\n");
    reveal_strlit("      // dead subscription: close() stops the poll timer and unsubscribes.\n");
    reveal_strlit("      // recovery is NOT immediate — the list comes back on the next\n");
    reveal_strlit("      // visibilitychange (start reopens the stream) or the 60 s meta-refresh\n");
    reveal_strlit("      // fallback, whichever fires first.\n");
    reveal_strlit("      if (!b.alive) { close(); return; }\n");
    reveal_strlit("      // the dirty guard decides what a tick means:\n");
    assert(i == 48 || i == 49 || i == 50 || i == 51 || i == 52 || i == 53 || i == 54 || i == 55);
}

proof fn lemma_plain_lines_56(i: int)
    requires
        56 <= i < 64,
    ensures
        is_plain_text(SCRIPT_REST@[i]@),
{
    reveal_strlit("      // never stomp in-progress edits; a clean page still refreshes at once\n");
    reveal_strlit("      if (b.events) { if (b.events.length) { onTick(); } }\n");
    reveal_strlit("    }).catch(function () { close(); });\n");
    reveal_strlit("  }\n");
    reveal_strlit("  function close() {\n");
    reveal_strlit("    if (timer) { clearInterval(timer); timer = null; }\n");
    reveal_strlit("    if (sub) { navigator.sendBeacon(\"/live/unsubscribe/\" + sub); sub = null; }\n");
    assert(i == 56 || i == 57 || i == 58 || i == 59 || i == 60 || i == 61 || i == 62 || i == 63);
}

proof fn lemma_plain_lines_64(i: int)
    requires
        64 <= i < 72,
    ensures
        is_plain_text(SCRIPT_REST@[i]@),
{
    reveal_strlit("  function start() { if (sseFailed) open(); else openSse(); }\n");
    reveal_strlit("  function stop() { closeSse(); close(); }\n");
    reveal_strlit("  // becoming hidden stops the stream (the writer-tax rule: pay only for views\n");
    reveal_strlit("  // someone is looking at); becoming visible resumes whichever transport is live\n");
    reveal_strlit("  document.addEventListener(\"visibilitychange\", function () {\n");
    reveal_strlit("    if (document.hidden) stop(); else start();\n");
    reveal_strlit("  });\n");
    reveal_strlit("  window.addEventListener(\"pagehide\", function () { stopped = true; stop(); });\n");
    assert(i == 64 || i == 65 || i == 66 || i == 67 || i == 68 || i == 69 || i == 70 || i == 71);
}

proof fn lemma_plain_lines_72(i: int)
    requires
        72 <= i < 74,
    ensures
        is_plain_text(SCRIPT_REST@[i]@),
{
    reveal_strlit("  if (!document.hidden) start();\n");
    reveal_strlit("})();");
    assert(i == 72 || i == 73);
}

/// Every line of the script is plain text.
proof fn lemma_plain_lines(i: int)
    requires
        0 <= i < SCRIPT_REST@.len(),
    ensures
        is_plain_text(SCRIPT_REST@[i]@),
{
    if i < 8 {
        lemma_plain_lines_0(i);
    } else if i < 16 {
        lemma_plain_lines_8(i);
    } else if i < 24 {
        lemma_plain_lines_16(i);
    } else if i < 32 {
        lemma_plain_lines_24(i);
    } else if i < 40 {
        lemma_plain_lines_32(i);
    } else if i < 48 {
        lemma_plain_lines_40(i);
    } else if i < 56 {
        lemma_plain_lines_48(i);
    } else if i < 64 {
        lemma_plain_lines_56(i);
    } else if i < 72 {
        lemma_plain_lines_64(i);
    } else {
        lemma_plain_lines_72(i);
    }
}

/// The script survives a page's escaping of text: on a table whose name is plain
/// text, nothing in it would be rewritten.
pub proof fn law_script_survives_escaping(doctype: Seq<char>)
    requires
        is_plain_text(doctype),
    ensures
        is_plain_text(script_text(doctype)),
{
    let lines = SCRIPT_REST@.map_values(|line: &'static str| line@);
    assert forall|i: int| 0 <= i < lines.len() implies is_plain_text(#[trigger] lines[i]) by {
        lemma_plain_lines(i);
    }
    lemma_plain_joined(lines);
    reveal_strlit("(function () {\n  var TABLE = \"");
    assert(is_plain_text(SCRIPT_OPEN@));
    lemma_plain_concat(SCRIPT_OPEN@, doctype);
    lemma_plain_concat(SCRIPT_OPEN@ + doctype, joined(lines));
}

/// An answer of a living subscription becomes the event of its events: the data is
/// the numeral of how many items the array has, and the name says whether there is
/// one at all.
pub proof fn law_event_of_an_answer(members: Map<Seq<char>, JsonView>, items: Seq<JsonView>)
    requires
        members.contains_key("alive"@),
        members["alive"@] == JsonView::Bool(true),
        members.contains_key("events"@),
        members["events"@] == JsonView::Items(items),
    ensures
        ({
            let event = next_event(200, JsonView::Members(members));
            &&& event is Some
            &&& items.len() > 0 ==> event->0.name == "tick"@
            &&& items.len() == 0 ==> event->0.name == "idle"@
            &&& is_run(event->0.data)
            &&& worth(event->0.data) == items.len()
            &&& event->0.data.len() > 0
            &&& event->0.data.len() > 1 ==> event->0.data[0] != '0'
        }),
{
    law_numeral_names_its_number(items.len());
}

/// An answer of a living subscription without an array of events is an idle event of
/// none.
pub proof fn law_event_without_events(members: Map<Seq<char>, JsonView>)
    requires
        members.contains_key("alive"@),
        members["alive"@] == JsonView::Bool(true),
        !members.contains_key("events"@) || !(members["events"@] is Items),
    ensures
        ({
            let event = next_event(200, JsonView::Members(members));
            event is Some && event->0.name == "idle"@ && event->0.data == seq!['0']
        }),
{
    assert(decimal_text(0) =~= seq!['0']);
}

/// Any other answer ends the stream: another status, a body that is no object, one
/// without a living subscription.
pub proof fn law_any_other_answer_ends_the_stream(code: u16, body: JsonView)
    requires
        code != 200 || !(body is Members) || !body->Members_0.contains_key("alive"@)
            || body->Members_0["alive"@] != JsonView::Bool(true),
    ensures
        next_event(code, body) is None,
{
}

/// The subscription is the text under `sub`; an answer without one names none.
pub proof fn law_subscription_is_the_sub(members: Map<Seq<char>, JsonView>, sub: Seq<char>)
    ensures
        members.contains_key("sub"@) && members["sub"@] == JsonView::Text(sub) ==> subscription_of(
            JsonView::Members(members),
        ) == sub,
        !members.contains_key("sub"@) || !(members["sub"@] is Text) ==> subscription_of(
            JsonView::Members(members),
        ) == Seq::<char>::empty(),
        forall|body: JsonView|
            !(body is Members) ==> #[trigger] subscription_of(body) == Seq::<char>::empty(),
{
}

/// A route is its kind and then the table or the subscription, as it is.
pub proof fn law_routes_carry_their_name(name: Seq<char>)
    ensures
        subscribe_path(name) == "/subscribe/"@ + name,
        events_path(name) == "/events/"@ + name,
        unsubscribe_path(name) == "/unsubscribe/"@ + name,
{
}

/// Two pages' scripts differ in the name of the table alone, which stands where the
/// first part of the script ends.
pub proof fn law_scripts_differ_in_the_table_alone(a: Seq<char>, b: Seq<char>)
    ensures
        ({
            let n = SCRIPT_OPEN@.len() as int;
            &&& script_text(a).len() - a.len() == script_text(b).len() - b.len()
            &&& script_text(a).take(n) == script_text(b).take(n)
            &&& script_text(a).subrange(n, n + a.len()) == a
            &&& script_text(a).skip(n + a.len()) == script_text(b).skip(n + b.len())
        }),
{
    let n = SCRIPT_OPEN@.len() as int;
    let tail = joined(SCRIPT_REST@.map_values(|line: &'static str| line@));
    assert(script_text(a).take(n) =~= SCRIPT_OPEN@);
    assert(script_text(b).take(n) =~= SCRIPT_OPEN@);
    assert(script_text(a).subrange(n, n + a.len()) =~= a);
    assert(script_text(a).skip(n + a.len()) =~= tail);
    assert(script_text(b).skip(n + b.len()) =~= tail);
}

/// The script says that there is something to read through the page's own hook, or else
/// by loading the page again.
pub proof fn law_script_reads_again()
    ensures
        SCRIPT_REST@[10]@
            == "    if (window.__frustOnTick) window.__frustOnTick(); else location.reload();\n"@,
{
}

/// The script opens one stream on its table, hears its ticks, and goes over to asking in
/// turns where there is no stream to be had.
pub proof fn law_script_opens_a_stream()
    ensures
        SCRIPT_REST@[13]@ == "    if (stopped) return;\n"@,
        SCRIPT_REST@[14]@
            == "    if (typeof EventSource === \"undefined\") { sseFailed = true; open(); return; }\n"@,
        SCRIPT_REST@[15]@ == "    var opened = false;\n"@,
        SCRIPT_REST@[16]@ == "    es = new EventSource(\"/live/sse/\" + TABLE);\n"@,
        SCRIPT_REST@[17]@
            == "    es.addEventListener(\"tick\", function () { opened = true; onTick(); });\n"@,
        SCRIPT_REST@[18]@
            == "    es.addEventListener(\"idle\", function () { opened = true; });\n"@,
        SCRIPT_REST@[19]@ == "    es.onopen = function () { opened = true; };\n"@,
        SCRIPT_REST@[20]@ == "    es.onerror = function () {\n"@,
        SCRIPT_REST@[23]@ == "      if (opened) return;\n"@,
        SCRIPT_REST@[24]@ == "      closeSse();\n"@,
        SCRIPT_REST@[25]@ == "      if (!sseFailed) { sseFailed = true; open(); }\n"@,
{
}

/// Asking in turns subscribes once, asks every three seconds, reads again where something
/// came, and ends with the subscription.
pub proof fn law_script_asks_in_turns()
    ensures
        SCRIPT_REST@[32]@ == "    if (sub) return;\n"@,
        SCRIPT_REST@[33]@ == "    if (stopped) return;\n"@,
        SCRIPT_REST@[34]@
            == "    fetch(\"/live/subscribe/\" + TABLE, { method: \"POST\" }).then(function (r) {\n"@,
        SCRIPT_REST@[35]@
            == "      if (!r.ok) return null;                  // 429 budget: polling covers it\n"@,
        SCRIPT_REST@[39]@ == "      sub = b.sub;\n"@,
        SCRIPT_REST@[40]@ == "      timer = setInterval(poll, 3000);\n"@,
        SCRIPT_REST@[44]@ == "    if (!sub) return;\n"@,
        SCRIPT_REST@[45]@
            == "    fetch(\"/live/events/\" + sub, { method: \"POST\" }).then(function (r) {\n"@,
        SCRIPT_REST@[46]@ == "      if (!r.ok) { close(); return null; }\n"@,
        SCRIPT_REST@[54]@ == "      if (!b.alive) { close(); return; }\n"@,
        SCRIPT_REST@[57]@ == "      if (b.events) { if (b.events.length) { onTick(); } }\n"@,
        SCRIPT_REST@[58]@ == "    }).catch(function () { close(); });\n"@,
{
}

/// Both ways stop where the page is hidden or left, give up what they hold, and start
/// again where it is shown.
pub proof fn law_script_stops_when_hidden()
    ensures
        SCRIPT_REST@[29]@ == "    if (es) { es.close(); es = null; }\n"@,
        SCRIPT_REST@[61]@ == "    if (timer) { clearInterval(timer); timer = null; }\n"@,
        SCRIPT_REST@[62]@
            == "    if (sub) { navigator.sendBeacon(\"/live/unsubscribe/\" + sub); sub = null; }\n"@,
        SCRIPT_REST@[64]@ == "  function start() { if (sseFailed) open(); else openSse(); }\n"@,
        SCRIPT_REST@[65]@ == "  function stop() { closeSse(); close(); }\n"@,
        SCRIPT_REST@[68]@ == "  document.addEventListener(\"visibilitychange\", function () {\n"@,
        SCRIPT_REST@[69]@ == "    if (document.hidden) stop(); else start();\n"@,
        SCRIPT_REST@[71]@
            == "  window.addEventListener(\"pagehide\", function () { stopped = true; stop(); });\n"@,
        SCRIPT_REST@[72]@ == "  if (!document.hidden) start();\n"@,
{
}

} // verus!
