//! What a caller gets of the library's functions, said of their arguments and results
//! alone.
use vstd::prelude::*;
use vstd::string::*;
use crate::admission::{
    admit_or_busy, bounded_max_inflight, grant, law_ceiling_of_a_count,
    law_ceiling_of_anything_else, law_report_is_the_counters, or_busy, pool_of, record_latency,
    release, stats, try_admit, Counters, Permit,
};
use crate::brand::{
    accent_family, brand_declarations, brand_select_options, brand_style, brand_style_from_row,
    family_from, in_vocabulary, logo_url, selected, ACCENT_FAMILIES,
};
use crate::brand_style_laws::{
    emits, holds, is_address, law_every_address_is_accepted, law_nothing_else_is_set,
};
use crate::calendar::{date_at, iso_at, iso_date, law_date_of_a_moment, Date};
use crate::css::{
    declarations, declared_properties, defined_properties, every_reference_is_defined,
    law_block_of_a_selector, law_closed_means_defined, law_the_last_value_stands, names_of,
    open_braces, pair_texts, referenced_properties, selector_block, served_css, texts,
};
use crate::digits::{is_run, ten_to, worth};
use crate::flash::{flash, law_decode_undoes_encode, pct_decode, pct_encode, take_flash, TakenFlash};
use crate::json::{json_source, json_view, JsonView};
use crate::kernel::{
    agent_limits, base, friendly, friendly_text, kernel_reply, kernel_request, kernel_status,
    require_session, session, settle, AgentLimits, KernelRequest, Outcome, Session,
};
use crate::kernel_laws::{law_answer_to_a_status, law_reply_is_the_answer};
use crate::money::{money_sub, pad_money};
use crate::money_laws::{
    is_written, law_difference_is_owed, law_no_other_difference, law_padding_fills_the_places,
    Amount,
};
use crate::realtime::{
    drain_step, events_route, law_any_other_answer_ends_the_stream, law_event_of_an_answer,
    law_event_without_events, law_subscription_is_the_sub, live_events, live_subscribe,
    live_subscription, live_updates, subscribe_route, unsubscribe_route, LiveEvent, SCRIPT_OPEN,
};
use crate::refusal::{Refusal, RefusalView};
use crate::tenant::{
    is_host_of, is_quad, law_first_label_is_the_tenant, law_no_other_name_has_a_tenant,
    tenant_from_host,
};
use crate::text::{contains_text, is_white_space, joined, occurs_at};
use crate::workspace::{
    is_first_readable, kept, law_a_link_belongs_to_its_entry, law_a_readable_target_is_linked,
    law_every_fed_report_is_linked, law_links_keep_the_order, law_only_readable_targets_are_linked,
    link_of, links_of, workspace_links, workspace_list, DocType, Workspace, WorkspaceLink,
};
use serde_json::Value;
use tokio::sync::{Semaphore, SemaphorePermit};

verus! {

/// A caller that subtracts two amounts is given their difference, written out.
pub proof fn law_subtracting_amounts(
    a: &str,
    b: &str,
    scale: usize,
    text: Option<String>,
    x: Amount,
    y: Amount,
)
    requires
        call_ensures(money_sub, (a, b, scale), text),
        x.valid() && x.text() == a@ && x.whole.len() > 0 && x.places.len() <= scale,
        y.valid() && y.text() == b@ && y.whole.len() > 0 && y.places.len() <= scale,
        -i128::MAX <= x.units(scale as nat) <= i128::MAX,
        -i128::MAX <= y.units(scale as nat) <= i128::MAX,
        i128::MIN <= x.units(scale as nat) - y.units(scale as nat) <= i128::MAX,
        ten_to(scale as nat) <= u128::MAX,
    ensures
        text is Some,
        is_written(text->0@, x.units(scale as nat) - y.units(scale as nat), scale as nat),
{
    law_difference_is_owed(x, y, scale as nat);
}

/// A caller that is given a difference subtracted two amounts.
pub proof fn law_only_amounts_are_subtracted(
    a: &str,
    b: &str,
    scale: usize,
    text: Option<String>,
) -> (sides: (Amount, Amount))
    requires
        call_ensures(money_sub, (a, b, scale), text),
        text is Some,
    ensures
        ({
            let (x, y) = sides;
            &&& x.valid() && x.text() == a@ && x.whole.len() > 0 && x.places.len() <= scale
            &&& y.valid() && y.text() == b@ && y.whole.len() > 0 && y.places.len() <= scale
            &&& is_written(text->0@, x.units(scale as nat) - y.units(scale as nat), scale as nat)
        }),
{
    let (x, y) = law_no_other_difference(a@, b@, scale as nat);
    law_difference_is_owed(x, y, scale as nat);
    (x, y)
}

/// A caller that pads an amount is given it with exactly its missing places behind it.
pub proof fn law_padding_an_amount(raw: &str, scale: usize, text: String, x: Amount)
    requires
        call_ensures(pad_money, (raw, scale), text),
        x.valid() && x.text() == raw@ && x.sign != seq!['+'],
    ensures
        x.places.len() >= scale ==> text@ == x.inner(),
        x.places.len() < scale ==> {
            let shown = x.inner().len() as int;
            let point = if x.pointed {
                0int
            } else {
                1
            };
            &&& text@.len() == shown + point + scale - x.places.len()
            &&& text@.take(shown) == x.inner()
            &&& !x.pointed ==> text@[shown] == '.'
            &&& forall|i: int| shown + point <= i < text@.len() ==> #[trigger] text@[i] == '0'
        },
{
    law_padding_fills_the_places(x, scale as nat);
    if x.places.len() < scale {
        assert(text@.take(x.inner().len() as int) =~= x.inner());
    }
}

/// A caller that asks for the style of a row is given all that the row sets.
pub proof fn law_a_style_has_what_the_row_sets(row: &Value, style: Option<String>, text: Seq<char>)
    requires
        call_ensures(brand_style_from_row, (row,), style),
        emits(json_view(*row), text),
    ensures
        style is Some,
        contains_text(style->0@, text),
{
}

/// The style is one rule of all that the row sets, and there is one exactly where it
/// sets anything.
pub proof fn law_a_style_is_one_rule(row: &Value, style: Option<String>)
    requires
        call_ensures(brand_style_from_row, (row,), style),
    ensures
        style is Some <==> brand_declarations(json_view(*row)).len() > 0,
        style is Some ==> style->0@ == ":root.fui-root{"@ + joined(
            brand_declarations(json_view(*row)),
        ) + "}"@,
{
    law_nothing_else_is_set(json_view(*row));
}

/// The style of an answer is that of the row in it, with status 200 alone.
pub proof fn law_a_style_is_that_of_the_row(
    code: u16,
    body: &Value,
    row: &Value,
    style: Option<String>,
    of_row: Option<String>,
)
    requires
        call_ensures(brand_style, (code, body), style),
        call_ensures(brand_style_from_row, (row,), of_row),
    ensures
        code != 200 ==> style is None,
        code == 200 && (json_view(*body) matches JsonView::Members(members)
            && members.contains_key("row"@) && members["row"@] == json_view(*row)) ==> {
            &&& style is Some <==> of_row is Some
            &&& style is Some ==> style->0@ == of_row->0@
        },
{
}

/// A choice is the text of the row's own field, and one of the words.
pub proof fn law_a_choice_is_made_in_the_row(
    row: &Value,
    field: &str,
    vocabulary: &[&str],
    value: Option<&str>,
    k: int,
)
    requires
        call_ensures(selected, (row, field, vocabulary), value),
    ensures
        0 <= k < vocabulary@.len() && holds(json_view(*row), field@, vocabulary@[k]@)
            ==> value is Some && value->0@ == vocabulary@[k]@,
        value is Some ==> holds(json_view(*row), field@, value->0@) && exists|i: int|
            0 <= i < vocabulary@.len() && (#[trigger] vocabulary@[i])@ == value->0@,
{
    if 0 <= k < vocabulary@.len() && holds(json_view(*row), field@, vocabulary@[k]@) {
        assert(in_vocabulary(vocabulary@, vocabulary@[k]@));
    }
}

/// A logo is the address in the row, and every such address is one.
pub proof fn law_a_logo_is_the_row_s_address(row: &Value, logo: Option<&str>, url: Seq<char>)
    requires
        call_ensures(logo_url, (row,), logo),
        holds(json_view(*row), "logo_url"@, url),
    ensures
        is_address(url) ==> logo is Some && logo->0@ == url,
        !is_address(url) ==> logo is None,
{
    law_every_address_is_accepted(url);
}

/// The options of a choice are the empty one and then each word, in order.
pub proof fn law_options_follow_the_words(values: &[&str], options: Vec<String>, i: int)
    requires
        call_ensures(brand_select_options, (values,), options),
        0 <= i < values@.len(),
    ensures
        options@.len() == values@.len() + 1,
        options@[0]@.len() == 0,
        options@[i + 1]@ == values@[i]@,
{
    reveal_strlit("");
}

/// The family of a key is the first whose accent is that key.
pub proof fn law_a_family_is_found_by_its_accent(
    accent: &str,
    family: Option<&'static [(&'static str, &'static str); 7]>,
    k: int,
)
    requires
        call_ensures(accent_family, (accent,), family),
        0 <= k < 6,
        ACCENT_FAMILIES@[k]@[0].1@ == accent@,
        forall|j: int| 0 <= j < k ==> (#[trigger] ACCENT_FAMILIES@[j])@[0].1@ != accent@,
    ensures
        family is Some,
        family->0@ == ACCENT_FAMILIES@[k]@,
{
    lemma_family_from(accent@, 0, k);
}

proof fn lemma_family_from(accent: Seq<char>, i: int, k: int)
    requires
        0 <= i <= k < 6,
        ACCENT_FAMILIES@[k]@[0].1@ == accent,
        forall|j: int| 0 <= j < k ==> (#[trigger] ACCENT_FAMILIES@[j])@[0].1@ != accent,
    ensures
        family_from(accent, i) == Some(ACCENT_FAMILIES@[k]@),
    decreases k - i,
{
    if i < k {
        assert(ACCENT_FAMILIES@[i]@[0].1@ != accent);
        lemma_family_from(accent, i + 1, k);
    }
}

/// A workspace shows the link of every entry for a report that some DocType feeds and
/// the user may read.
pub proof fn law_a_fed_report_is_shown(
    workspace: &Workspace,
    doctypes: &[DocType],
    links: Vec<WorkspaceLink>,
    i: int,
    r: int,
    f: int,
    g: int,
) -> (at: int)
    requires
        call_ensures(workspace_links, (workspace, doctypes), links),
        0 <= i < workspace.items@.len(),
        workspace.items@[i].kind@ == "report"@,
        0 <= r < doctypes@.len(),
        doctypes@[r].name@ == workspace.items@[i].target@,
        doctypes@[r].can_read,
        0 <= f < doctypes@.len(),
        0 <= g < doctypes@[f].aggregates@.len(),
        doctypes@[f].aggregates@[g].rollup@ == workspace.items@[i].target@,
    ensures
        0 <= at < links@.len(),
        links@[at].href@ == "/report/"@ + workspace.items@[i].target@,
{
    law_every_fed_report_is_linked(workspace.items@[i], doctypes@, r, f, g);
    lemma_shown(workspace, doctypes, links, i)
}

/// A workspace shows the link of every entry for a DocType that the user may read: to
/// its one record or to its list.
pub proof fn law_a_readable_doctype_is_shown(
    workspace: &Workspace,
    doctypes: &[DocType],
    links: Vec<WorkspaceLink>,
    i: int,
    k: int,
) -> (at: int)
    requires
        call_ensures(workspace_links, (workspace, doctypes), links),
        0 <= i < workspace.items@.len(),
        workspace.items@[i].kind@ == "doctype"@,
        is_first_readable(doctypes@, workspace.items@[i].target@, k),
    ensures
        0 <= at < links@.len(),
        doctypes@[k].issingle ==> links@[at].href@ == "/single/"@ + workspace.items@[i].target@,
        !doctypes@[k].issingle ==> links@[at].href@ == "/list/"@ + workspace.items@[i].target@,
        workspace.items@[i].label@.len() > 0 ==> links@[at].label@ == workspace.items@[i].label@,
        workspace.items@[i].label@.len() == 0 && doctypes@[k].label@.len() > 0
            ==> links@[at].label@ == doctypes@[k].label@,
        workspace.items@[i].label@.len() == 0 && doctypes@[k].label@.len() == 0
            ==> links@[at].label@ == workspace.items@[i].target@,
{
    law_a_readable_target_is_linked(workspace.items@[i], doctypes@, k);
    lemma_shown(workspace, doctypes, links, i)
}

proof fn lemma_shown(
    workspace: &Workspace,
    doctypes: &[DocType],
    links: Vec<WorkspaceLink>,
    i: int,
) -> (at: int)
    requires
        call_ensures(workspace_links, (workspace, doctypes), links),
        0 <= i < workspace.items@.len(),
        link_of(workspace.items@[i], doctypes@) is Some,
    ensures
        0 <= at < links@.len(),
        link_of(workspace.items@[i], doctypes@) == Some(links@[at]@),
{
    let items = workspace.items@;
    let views = links@.map_values(|link: WorkspaceLink| link@);
    law_links_keep_the_order(items, doctypes@);
    assert(link_of(items[i], doctypes@) is Some);
    assert(views == links_of(items, doctypes@));
    let at = choose|at: int|
        0 <= at < kept(items, doctypes@).len() && kept(items, doctypes@)[at] == i;
    assert(kept(items, doctypes@)[at] == i);
    assert(views[at] == links@[at]@);
    at
}

/// A workspace shows no link but those of its entries, in their order: where one stands
/// before another, so do their entries. None leads to what the user may not read.
pub proof fn law_shown_links_are_those_of_entries(
    workspace: &Workspace,
    doctypes: &[DocType],
    links: Vec<WorkspaceLink>,
) -> (entries: Seq<int>)
    requires
        call_ensures(workspace_links, (workspace, doctypes), links),
    ensures
        entries.len() == links@.len(),
        forall|j: int, k: int|
            0 <= j < k < entries.len() ==> #[trigger] entries[j] < #[trigger] entries[k],
        forall|k: int|
            #![trigger entries[k]]
            0 <= k < entries.len() ==> {
                let target = workspace.items@[entries[k]].target@;
                let href = links@[k].href@;
                &&& 0 <= entries[k] < workspace.items@.len()
                &&& href == "/single/"@ + target || href == "/list/"@ + target || href
                    == "/report/"@ + target
                &&& exists|r: int|
                    0 <= r < doctypes@.len() && (#[trigger] doctypes@[r]).name@ == target
                        && doctypes@[r].can_read
            },
{
    let items = workspace.items@;
    let views = links@.map_values(|link: WorkspaceLink| link@);
    let entries = kept(items, doctypes@);
    law_links_keep_the_order(items, doctypes@);
    assert(views == links_of(items, doctypes@));
    assert forall|k: int| 0 <= k < entries.len() implies {
        let target = items[#[trigger] entries[k]].target@;
        let href = links@[k].href@;
        &&& 0 <= entries[k] < items.len()
        &&& href == "/single/"@ + target || href == "/list/"@ + target || href == "/report/"@
            + target
        &&& exists|r: int|
            0 <= r < doctypes@.len() && (#[trigger] doctypes@[r]).name@ == target
                && doctypes@[r].can_read
    } by {
        let item = items[entries[k]];
        assert(views[k] == links@[k]@);
        law_a_link_belongs_to_its_entry(item, doctypes@);
        if forall|r: int|
            0 <= r < doctypes@.len() && (#[trigger] doctypes@[r]).name@ == item.target@
                ==> !doctypes@[r].can_read {
            law_only_readable_targets_are_linked(item, doctypes@);
        }
    }
    entries
}

/// The rows of an answer are what it holds under `rows`, with status 200 alone.
pub proof fn law_rows_are_those_of_the_answer(
    code: u16,
    body: &Value,
    rows: Result<Value, Refusal>,
    members: Map<Seq<char>, JsonView>,
)
    requires
        call_ensures(workspace_list, (code, body), rows),
        json_view(*body) == JsonView::Members(members),
    ensures
        rows is Ok <==> code == 200,
        rows is Ok && members.contains_key("rows"@) ==> json_view(rows->Ok_0) == members["rows"@],
        rows is Ok && !members.contains_key("rows"@) ==> json_view(rows->Ok_0) == JsonView::Null,
        code == 401 ==> rows->Err_0@ == RefusalView::Redirect("/login"@),
        code == 429 || code == 502 || code == 503 ==> rows->Err_0@ == RefusalView::Busy(2),
        rows is Err && code != 401 && code != 429 && code != 502 && code != 503
            ==> rows->Err_0@ is Internal,
{
    law_answer_to_a_status(code, json_view(*body));
}

/// A living subscription's answer becomes one event: how many events came, and a tick
/// exactly where some came.
pub proof fn law_one_event_for_each_answer(
    body: &Value,
    event: Option<LiveEvent>,
    members: Map<Seq<char>, JsonView>,
    items: Seq<JsonView>,
)
    requires
        call_ensures(drain_step, (200u16, body), event),
        json_view(*body) == JsonView::Members(members),
        members.contains_key("alive"@),
        members["alive"@] == JsonView::Bool(true),
    ensures
        event is Some,
        members.contains_key("events"@) && members["events"@] == JsonView::Items(items) ==> {
            &&& event->0.name@ == (if items.len() > 0 {
                "tick"@
            } else {
                "idle"@
            })
            &&& is_run(event->0.data@)
            &&& event->0.data@.len() > 0
            &&& event->0.data@.len() > 1 ==> event->0.data@[0] != '0'
            &&& worth(event->0.data@) == items.len()
        },
        !members.contains_key("events"@) || !(members["events"@] is Items) ==> event->0.name@
            == "idle"@ && event->0.data@ == seq!['0'],
{
    if members.contains_key("events"@) && members["events"@] == JsonView::Items(items) {
        law_event_of_an_answer(members, items);
    }
    if !members.contains_key("events"@) || !(members["events"@] is Items) {
        law_event_without_events(members);
    }
}

/// No other answer becomes an event.
pub proof fn law_no_event_of_any_other_answer(
    code: u16,
    body: &Value,
    event: Option<LiveEvent>,
)
    requires
        call_ensures(drain_step, (code, body), event),
        code != 200 || !(json_view(*body) is Members)
            || !json_view(*body)->Members_0.contains_key("alive"@)
            || json_view(*body)->Members_0["alive"@] != JsonView::Bool(true),
    ensures
        event is None,
{
    law_any_other_answer_ends_the_stream(code, json_view(*body));
}

/// A page that subscribes or asks for events is handed the kernel's answer, with status
/// 200 alone; with any other, a refusal in words of its own.
pub proof fn law_answers_are_handed_on(
    code: u16,
    body: &Value,
    subscribed: Result<String, Refusal>,
    events: Result<String, Refusal>,
)
    requires
        call_ensures(live_subscribe, (code, body), subscribed),
        call_ensures(live_events, (code, body), events),
    ensures
        subscribed is Ok <==> code == 200,
        events is Ok <==> code == 200,
        code == 200 ==> subscribed->Ok_0@ == json_source(json_view(*body)) && events->Ok_0@
            == json_source(json_view(*body)),
        code != 200 ==> subscribed->Err_0@ == RefusalView::BadRequest("live unavailable"@)
            && events->Err_0@ == RefusalView::BadRequest("subscription gone"@),
{
}

/// A stream has the subscription that the answer names, with status 200 alone.
pub proof fn law_a_stream_has_the_named_subscription(
    code: u16,
    body: &Value,
    sub: Result<String, Refusal>,
    members: Map<Seq<char>, JsonView>,
    named: Seq<char>,
)
    requires
        call_ensures(live_subscription, (code, body), sub),
        json_view(*body) == JsonView::Members(members),
        members.contains_key("sub"@),
        members["sub"@] == JsonView::Text(named),
    ensures
        sub is Ok <==> code == 200,
        code == 200 ==> sub->Ok_0@ == named,
        code != 200 ==> sub->Err_0@ == RefusalView::BadRequest("live unavailable"@),
{
    law_subscription_is_the_sub(members, named);
}

/// The routes of a subscription end in its name; the script of a page holds the name of
/// its table.
pub proof fn law_routes_end_in_their_name(
    name: &str,
    subscribe: String,
    events: String,
    unsubscribe: String,
    script: String,
)
    requires
        call_ensures(subscribe_route, (name,), subscribe),
        call_ensures(events_route, (name,), events),
        call_ensures(unsubscribe_route, (name,), unsubscribe),
        call_ensures(live_updates, (name,), script),
    ensures
        subscribe@ == "/subscribe/"@ + name@,
        events@ == "/events/"@ + name@,
        unsubscribe@ == "/unsubscribe/"@ + name@,
        ({
            let n = SCRIPT_OPEN@.len() as int;
            script@.take(n) == SCRIPT_OPEN@ && script@.subrange(n, n + name@.len()) == name@
        }),
{
    let n = SCRIPT_OPEN@.len() as int;
    assert(script@.take(n) =~= SCRIPT_OPEN@);
    assert(script@.subrange(n, n + name@.len()) =~= name@);
}

/// The agent keeps as many idle connections as requests are admitted, but never fewer
/// than 8 nor more than 64; a call outlasts an attempt to connect.
pub proof fn law_the_pool_follows_the_ceiling(
    ceiling: usize,
    limits: AgentLimits,
    larger: usize,
    others: AgentLimits,
)
    requires
        call_ensures(agent_limits, (ceiling,), limits),
        call_ensures(agent_limits, (larger,), others),
        ceiling <= larger,
    ensures
        8 <= limits.idle_connections <= 64,
        8 <= ceiling <= 64 ==> limits.idle_connections == ceiling,
        limits.idle_connections <= others.idle_connections,
        limits.connect_secs == 10 && limits.global_secs == 60,
        others.connect_secs == limits.connect_secs && others.global_secs == limits.global_secs,
{
}

/// The kernel is where the configuration says, if it says anything.
pub proof fn law_the_kernel_is_where_it_is_configured(text: &str, configured: String, not: String)
    requires
        call_ensures(base, (Some(text),), configured),
        call_ensures(base, (None,), not),
    ensures
        configured@ == text@,
        not@ == "http://127.0.0.1:8790"@,
{
}

/// A request goes to the route at the base, with the token behind `Bearer ` and with the
/// body in it, each exactly where there is one.
pub proof fn law_a_request_carries_what_it_is_given(
    base: &str,
    token: Option<&str>,
    route: &str,
    body: Option<&Value>,
    request: KernelRequest,
)
    requires
        call_ensures(kernel_request, (base, token, route, body), request),
    ensures
        request.url@.len() == base@.len() + route@.len(),
        request.url@.take(base@.len() as int) == base@,
        request.url@.skip(base@.len() as int) == route@,
        request.authorization is Some <==> token is Some,
        token is Some ==> request.authorization->0@ == "Bearer "@ + token->0@,
        request.body is Some <==> body is Some,
        body is Some ==> request.body->0@ == json_source(json_view(*body->0)),
{
    assert(request.url@.take(base@.len() as int) =~= base@);
    assert(request.url@.skip(base@.len() as int) =~= route@);
}

/// A session is there exactly where a token is, and is required as it is; without one
/// the way is to the login page.
pub proof fn law_a_session_is_its_token(
    token: Option<&str>,
    user: Option<&str>,
    role: Option<&str>,
    found: Option<Session>,
    required: Result<Session, Refusal>,
)
    requires
        call_ensures(session, (token, user, role), found),
        call_ensures(require_session, (found,), required),
    ensures
        required is Ok <==> token is Some,
        token is Some ==> required->Ok_0.token@ == token->0@,
        token is Some && user is Some ==> required->Ok_0.user@ == user->0@,
        token is Some && user is None ==> required->Ok_0.user@.len() == 0,
        token is Some && role is Some ==> required->Ok_0.role@ == role->0@,
        token is Some && role is None ==> required->Ok_0.role@.len() == 0,
        token is None ==> required->Err_0@ == RefusalView::Redirect("/login"@),
{
}

/// A status is answered for what it is; a failure is told in the words for its error.
pub proof fn law_a_status_is_answered(code: u16, body: &Value, refusal: Refusal, words: String)
    requires
        call_ensures(kernel_status, (code, body), refusal),
        call_ensures(friendly, (code, body), words),
    ensures
        code == 401 ==> refusal@ == RefusalView::Redirect("/login"@),
        code == 429 || code == 502 || code == 503 ==> refusal@ == RefusalView::Busy(2),
        code != 401 && code != 429 && code != 502 && code != 503 ==> refusal@
            == RefusalView::Internal(words@),
        words@ == friendly_text(code, json_view(*body)),
{
    law_answer_to_a_status(code, json_view(*body));
}

/// A reply has the status and the body that came.
pub proof fn law_a_reply_is_what_came(code: u16, value: Value, words: String, reply: (u16, Value))
    ensures
        call_ensures(kernel_reply, (Outcome::Answered(code, Some(value)),), reply) ==> reply.0
            == code && json_view(reply.1) == json_view(value),
        call_ensures(kernel_reply, (Outcome::Answered(code, None),), reply) ==> reply.0 == code
            && json_view(reply.1) == JsonView::Members(Map::empty()),
        call_ensures(kernel_reply, (Outcome::Failed(words),), reply) ==> reply.0 == 502,
{
    law_reply_is_the_answer(code, value, words);
}

/// The tenant of a host name is its first label.
pub proof fn law_the_tenant_is_the_first_label(
    host: &str,
    tenant: Option<&str>,
    label: Seq<char>,
    second: Seq<char>,
    rest: Seq<char>,
)
    requires
        call_ensures(tenant_from_host, (host,), tenant),
        label.len() > 0,
        !label.contains('.'),
        !second.contains('.'),
        ({
            let name = label + seq!['.'] + second + seq!['.'] + rest;
            &&& is_host_of(host@, name)
            &&& !name.contains(':')
            &&& !is_white_space(name[0]) && !is_white_space(name.last())
            &&& !is_quad(name)
        }),
    ensures
        tenant is Some,
        tenant->0@ == label,
{
    law_first_label_is_the_tenant(host@, label, second, rest);
}

/// There is no tenant in an address, a name that begins with a point or one with fewer
/// than two points.
pub proof fn law_no_tenant_of_any_other_name(host: &str, tenant: Option<&str>, name: Seq<char>)
    requires
        call_ensures(tenant_from_host, (host,), tenant),
        is_host_of(host@, name),
        !name.contains(':'),
        name.len() > 0 ==> !is_white_space(name[0]) && !is_white_space(name.last()),
        ({
            ||| is_quad(name)
            ||| name.len() > 0 && name[0] == '.'
            ||| forall|i: int, j: int|
                0 <= i < j < name.len() ==> !(#[trigger] name[i] == '.' && #[trigger] name[j]
                    == '.')
        }),
    ensures
        tenant is None,
{
    law_no_other_name_has_a_tenant(host@, name);
}

/// A message that was put into the cookie is taken out of it as it was; an empty one is
/// not shown. The cookie is cleared, and without one there is nothing to clear.
pub proof fn law_a_flash_is_taken_as_it_was_put(
    msg: &str,
    value: String,
    cookie: &str,
    taken: TakenFlash,
    none: TakenFlash,
)
    requires
        call_ensures(flash, (msg,), value),
        cookie@ == value@,
        call_ensures(take_flash, (Some(cookie),), taken),
        call_ensures(take_flash, (None,), none),
    ensures
        taken.clear,
        msg@.len() > 0 ==> taken.message is Some && taken.message->0@ == msg@,
        msg@.len() == 0 ==> taken.message is None,
        !none.clear,
        none.message is None,
{
    law_decode_undoes_encode(msg@);
}

/// Decoding undoes encoding.
pub proof fn law_a_text_is_decoded_as_it_was(text: &str, out: String, back: &str, again: String)
    requires
        call_ensures(pct_encode, (text,), out),
        back@ == out@,
        call_ensures(pct_decode, (back,), again),
    ensures
        again@ == text@,
{
    law_decode_undoes_encode(text@);
}

/// The ceiling is the count that is configured, within what a semaphore holds; anything
/// else stands for 64.
pub proof fn law_the_ceiling_is_the_count(raw: &str, digits: Seq<char>, limit: usize, not: usize)
    requires
        call_ensures(bounded_max_inflight, (Some(raw),), limit),
        call_ensures(bounded_max_inflight, (None,), not),
    ensures
        not == 64,
        is_run(digits) && digits.len() > 0 && (raw@ == digits || raw@ == seq!['+'] + digits) ==> {
            &&& 1 <= worth(digits) <= usize::MAX / 8 ==> limit == worth(digits)
            &&& usize::MAX / 8 < worth(digits) <= usize::MAX ==> limit == usize::MAX / 8
            &&& worth(digits) == 0 || worth(digits) > usize::MAX ==> limit == 64
        },
        raw@.len() == 0 ==> limit == 64,
        (exists|i: int|
            0 <= i < raw@.len() && !('0' <= #[trigger] raw@[i] <= '9') && !(i == 0 && raw@[i]
                == '+')) ==> limit == 64,
{
    if is_run(digits) && digits.len() > 0 && (raw@ == digits || raw@ == seq!['+'] + digits) {
        law_ceiling_of_a_count(raw, raw@ != digits, digits);
    }
    if raw@.len() == 0 || exists|i: int|
        0 <= i < raw@.len() && !('0' <= #[trigger] raw@[i] <= '9') && !(i == 0 && raw@[i] == '+') {
        law_ceiling_of_anything_else(raw);
    }
}

/// The report is the counters, with the latency in milliseconds.
pub proof fn law_the_report_is_the_counters(counters: &Counters, report: (i64, u64, u64, u64))
    requires
        call_ensures(stats, (counters,), report),
    ensures
        report.0 == counters.inflight,
        report.1 == counters.served,
        report.2 == counters.shed,
        1000 * report.3 <= counters.latency_us < 1000 * report.3 + 1000,
{
    law_report_is_the_counters(*counters);
}

/// A permit that was given is handed on; without one the Desk is busy for two seconds.
pub proof fn law_without_a_permit_the_desk_is_busy<'a>(
    permit: Option<Permit<'a>>,
    admitted: Result<Permit<'a>, Refusal>,
)
    requires
        call_ensures(or_busy, (permit,), admitted),
    ensures
        permit is Some ==> admitted is Ok && admitted->Ok_0 == permit->0,
        permit is None ==> admitted is Err && admitted->Err_0@ == RefusalView::Busy(2),
{
}

/// The date of a moment is that of the day that it falls on, and is written in full.
pub proof fn law_a_moment_has_its_date(
    secs: u64,
    date: Date,
    borrowed: &Date,
    text: String,
    written: String,
)
    requires
        call_ensures(date_at, (secs,), date),
        *borrowed == date,
        call_ensures(iso_date, (borrowed,), text),
        call_ensures(iso_at, (Some(secs),), written),
    ensures
        date.valid(),
        86400 * date.day_number() <= secs < 86400 * (date.day_number() + 1),
        written@ == text@,
{
    law_date_of_a_moment(written@, secs, date);
}

/// A stylesheet is served as its two texts, one behind the other.
pub proof fn law_a_stylesheet_is_both_texts(design: &str, chrome: &str, css: String)
    requires
        call_ensures(served_css, (design, chrome), css),
    ensures
        css@.len() == design@.len() + chrome@.len(),
        css@.take(design@.len() as int) == design@,
        css@.skip(design@.len() as int) == chrome@,
{
    assert(css@.take(design@.len() as int) =~= design@);
    assert(css@.skip(design@.len() as int) =~= chrome@);
}

/// A selector's block is what stands between its braces.
pub proof fn law_a_block_is_what_its_braces_hold(
    css: &str,
    selector: &str,
    block: Option<String>,
    front: Seq<char>,
    head: Seq<char>,
    inner: Seq<char>,
    rest: Seq<char>,
)
    requires
        call_ensures(selector_block, (css, selector), block),
        css@ == front + head + seq!['{'] + inner + seq!['}'] + rest,
        occurs_at(css@, selector@, front.len() as int),
        forall|i: int| 0 <= i < front.len() ==> !#[trigger] occurs_at(css@, selector@, i),
        !head.contains('{'),
        forall|i: int| 0 <= i <= inner.len() ==> open_braces(#[trigger] inner.take(i)) >= 0,
        open_braces(inner) == 0,
    ensures
        block is Some,
        block->0@ == inner,
{
    law_block_of_a_selector(front, head, inner, rest, selector@);
}

/// The properties of a stylesheet are found together: it is closed exactly where each
/// one that is read is among those that are defined.
pub proof fn law_a_closed_stylesheet_defines_what_it_reads(
    css: &str,
    defined: Vec<String>,
    read: Vec<String>,
    yes: bool,
)
    requires
        call_ensures(defined_properties, (css,), defined),
        call_ensures(referenced_properties, (css,), read),
        call_ensures(every_reference_is_defined, (css,), yes),
    ensures
        texts(defined@).no_duplicates(),
        yes <==> forall|property: Seq<char>| #[trigger]
            texts(read@).contains(property) ==> texts(defined@).contains(property),
{
    law_closed_means_defined(css@);
}

/// A declared property has the value of its last declaration.
pub proof fn law_a_property_has_its_last_value(
    block: &str,
    pairs: Vec<(String, String)>,
    i: int,
) -> (at: int)
    requires
        call_ensures(declared_properties, (block,), pairs),
        0 <= i < declarations(block@).len(),
        forall|j: int|
            i < j < declarations(block@).len() ==> (#[trigger] declarations(block@)[j]).0
                != declarations(block@)[i].0,
    ensures
        0 <= at < pairs@.len(),
        pairs@[at].0@ == declarations(block@)[i].0,
        pairs@[at].1@ == declarations(block@)[i].1,
        forall|j: int|
            0 <= j < pairs@.len() && j != at ==> (#[trigger] pairs@[j]).0@ != pairs@[at].0@,
{
    let all = declarations(block@);
    law_the_last_value_stands(all, i);
    let names = names_of(pair_texts(pairs@));
    assert(names.contains(all[i].0));
    let at = choose|at: int| 0 <= at < names.len() && names[at] == all[i].0;
    assert(pairs@[at].0@ == names[at]);
    assert forall|j: int| 0 <= j < pairs@.len() && j != at implies (#[trigger] pairs@[j]).0@
        != pairs@[at].0@ by {
        assert(names[j] == pairs@[j].0@);
    }
    at
}

/// One counter set is the other but for the latency, which the sample moves by an eighth
/// of each, or is where it is the first.
pub open spec fn is_sampled(before: Counters, us: u64, after: Counters) -> bool {
    &&& after.inflight == before.inflight
    &&& after.served == before.served
    &&& after.shed == before.shed
    &&& before.latency_us == 0 ==> after.latency_us == us
    &&& before.latency_us > 0 ==> after.latency_us == before.latency_us - before.latency_us / 8 + us
        / 8
}

/// One counter set is the other with one request more, which was served or shed.
pub open spec fn is_counted(before: Counters, served: bool, after: Counters) -> bool {
    &&& after.latency_us == before.latency_us
    &&& served && before.inflight < i64::MAX ==> after.inflight == before.inflight + 1
    &&& served && before.served < u64::MAX ==> after.served == before.served + 1
    &&& served ==> after.shed == before.shed
    &&& !served ==> after.inflight == before.inflight && after.served == before.served
    &&& !served && before.shed < u64::MAX ==> after.shed == before.shed + 1
}

/// Every call that is settled is sampled, whether it was answered or failed, and so is
/// every latency that is recorded.
pub proof fn law_every_call_is_sampled()
    ensures
        forall|counters: &mut Counters, us: u64| #[trigger]
            call_ensures(record_latency, (counters, us), ()) ==> is_sampled(
                *counters,
                us,
                *final(counters),
            ),
        forall|outcome: Outcome, us: u64, counters: &mut Counters, reply: (u16, Value)| #[trigger]
            call_ensures(settle, (outcome, us, counters), reply) ==> is_sampled(
                *counters,
                us,
                *final(counters),
            ),
{
}

/// A call is settled with the reply that it would be given without a look at the time.
pub proof fn law_a_settled_call_has_its_reply()
    ensures
        forall|
            outcome: Outcome,
            us: u64,
            counters: &mut Counters,
            settled: (u16, Value),
            reply: (u16, Value),
        |
            #[trigger] call_ensures(settle, (outcome, us, counters), settled)
                && #[trigger] call_ensures(kernel_reply, (outcome,), reply) ==> settled.0 == reply.0
                && json_view(settled.1) == json_view(reply.1),
{
}

/// Every request is counted as what became of it: served where it was given a permit,
/// shed where it was not. A permit is the slot that was granted, or one of the pool that
/// was asked; without one the Desk is busy for two seconds.
pub proof fn law_every_request_is_counted<'a>()
    ensures
        forall|
            slot: Option<SemaphorePermit<'a>>,
            counters: &mut Counters,
            permit: Option<Permit<'a>>,
        |
            #[trigger] call_ensures(grant, (slot, counters), permit) ==> {
                &&& is_counted(*counters, slot is Some, *final(counters))
                &&& permit is Some <==> slot is Some
                &&& permit is Some ==> permit->0.slot() == slot->0
            },
        forall|pool: &'a Semaphore, counters: &mut Counters, permit: Option<Permit<'a>>|
            #[trigger] call_ensures(try_admit, (pool, counters), permit) ==> {
                &&& is_counted(*counters, permit is Some, *final(counters))
                &&& permit is Some ==> pool_of(permit->0.slot()) == *pool
            },
        forall|pool: &'a Semaphore, counters: &mut Counters, admitted: Result<Permit<'a>, Refusal>|
            #[trigger] call_ensures(admit_or_busy, (pool, counters), admitted) ==> {
                &&& is_counted(*counters, admitted is Ok, *final(counters))
                &&& admitted is Ok ==> pool_of(admitted->Ok_0.slot()) == *pool
                &&& admitted is Err ==> admitted->Err_0@ == RefusalView::Busy(2)
            },
{
}

/// A permit that is given back takes one request out of flight, and nothing else.
pub proof fn law_a_release_ends_one_request()
    ensures
        forall|counters: &mut Counters| #[trigger]
            call_ensures(release, (counters,), ()) ==> {
                &&& (*counters).inflight > i64::MIN ==> final(counters).inflight
                    == (*counters).inflight - 1
                &&& final(counters).served == (*counters).served
                &&& final(counters).shed == (*counters).shed
                &&& final(counters).latency_us == (*counters).latency_us
            },
{
}

} // verus!
