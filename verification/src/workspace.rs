//! Workspaces: a tenant's directory of links, and what of it a user may follow.
use vstd::prelude::*;
use vstd::string::*;
use crate::decimal::decimal_text;
use crate::json::{
    copied, index, json_view, member_or_null, number, object, object_view, pair_views_of, string,
    JsonView,
};
use crate::kernel::{kernel_status, refusal_for};
use crate::refusal::Refusal;
use crate::text::same_text;
use serde_json::Value;

verus! {

/// The kernel route that reads the workspaces.
pub const WORKSPACE_ROUTE: &'static str = "/read/workspace";

/// How many workspaces are read at most.
pub const WORKSPACE_LIMIT: u64 = 200;

/// A workspace: a heading and its links, in the order in which they are shown.
pub struct Workspace {
    pub label: String,
    pub module: String,
    pub items: Vec<WorkspaceItem>,
}

/// One entry of a workspace, as it is stored.
pub struct WorkspaceItem {
    /// The words of the link; empty for those of its target.
    pub label: String,
    /// `doctype` or `report`.
    pub kind: String,
    /// The name of the DocType that the entry leads to.
    pub target: String,
}

/// A link, as it is shown.
#[derive(Debug, PartialEq, Eq)]
pub struct WorkspaceLink {
    pub label: String,
    pub href: String,
}

/// A rollup that a DocType feeds.
pub struct Aggregate {
    pub kind: String,
    /// The name of the DocType that holds the rollup.
    pub rollup: String,
}

/// What the Desk reads of a DocType to link to it.
pub struct DocType {
    pub name: String,
    pub label: String,
    /// Whether it has one record instead of a list of them.
    pub issingle: bool,
    /// Whether the user may read it.
    pub can_read: bool,
    pub aggregates: Vec<Aggregate>,
}

/// What a link shows and where it leads.
pub struct LinkView {
    pub label: Seq<char>,
    pub href: Seq<char>,
}

impl View for WorkspaceLink {
    type V = LinkView;

    open spec fn view(&self) -> LinkView {
        LinkView { label: self.label@, href: self.href@ }
    }
}

/// The words for a DocType: its label, or its name where it has none.
pub open spec fn doctype_label(doctype: DocType) -> Seq<char> {
    if doctype.label@.len() == 0 {
        doctype.name@
    } else {
        doctype.label@
    }
}

/// The first DocType of that name that the user may read.
pub open spec fn readable(doctypes: Seq<DocType>, name: Seq<char>) -> Option<DocType>
    decreases doctypes.len(),
{
    if doctypes.len() == 0 {
        None
    } else if doctypes[0].name@ == name && doctypes[0].can_read {
        Some(doctypes[0])
    } else {
        readable(doctypes.drop_first(), name)
    }
}

/// The DocType feeds the rollup of that name.
pub open spec fn feeds(doctype: DocType, name: Seq<char>) -> bool {
    exists|j: int|
        0 <= j < doctype.aggregates@.len() && (#[trigger] doctype.aggregates@[j]).rollup@ == name
}

/// Some DocType feeds the rollup of that name.
pub open spec fn is_rollup(doctypes: Seq<DocType>, name: Seq<char>) -> bool {
    exists|i: int| 0 <= i < doctypes.len() && feeds(#[trigger] doctypes[i], name)
}

/// Where an entry of that kind leads, its target being `target`.
pub open spec fn href_of(kind: Seq<char>, target: DocType, doctypes: Seq<DocType>) -> Option<
    Seq<char>,
> {
    if kind == "doctype"@ && target.issingle {
        Some("/single/"@ + target.name@)
    } else if kind == "doctype"@ {
        Some("/list/"@ + target.name@)
    } else if kind == "report"@ && is_rollup(doctypes, target.name@) {
        Some("/report/"@ + target.name@)
    } else {
        None
    }
}

/// The link of an entry: none where its target is not there to be read, where
/// it is of no known kind, or where it names as a report what is no rollup.
pub open spec fn link_of(item: WorkspaceItem, doctypes: Seq<DocType>) -> Option<LinkView> {
    match readable(doctypes, item.target@) {
        Some(target) => match href_of(item.kind@, target, doctypes) {
            Some(href) => Some(
                LinkView {
                    label: if item.label@.len() == 0 {
                        doctype_label(target)
                    } else {
                        item.label@
                    },
                    href,
                },
            ),
            None => None,
        },
        None => None,
    }
}

/// The entries that have a link, by their places, in order.
pub open spec fn kept(items: Seq<WorkspaceItem>, doctypes: Seq<DocType>) -> Seq<int>
    decreases items.len(),
{
    if items.len() == 0 {
        Seq::empty()
    } else if link_of(items.last(), doctypes) is Some {
        kept(items.drop_last(), doctypes).push(items.len() - 1)
    } else {
        kept(items.drop_last(), doctypes)
    }
}

/// The links of a workspace, in the order of their entries.
pub open spec fn links_of(items: Seq<WorkspaceItem>, doctypes: Seq<DocType>) -> Seq<LinkView> {
    kept(items, doctypes).map_values(|i: int| link_of(items[i], doctypes)->0)
}

impl DocType {
    /// The words for a DocType: its label, or its name where it has none.
    pub fn label_or_name(&self) -> (words: String)
        ensures
            words@ == doctype_label(*self),
    {
        if same_text(self.label.as_str(), "") {
            proof {
                reveal_strlit("");
            }
            self.name.as_str().to_string()
        } else {
            proof {
                reveal_strlit("");
                assert(self.label@.len() == 0 ==> self.label@ =~= ""@);
            }
            self.label.as_str().to_string()
        }
    }
}

fn find_readable<'a>(doctypes: &'a [DocType], name: &str) -> (found: Option<&'a DocType>)
    ensures
        match found {
            Some(doctype) => readable(doctypes@, name@) == Some(*doctype) && doctype.name@ == name@,
            None => readable(doctypes@, name@) is None,
        },
{
    let mut i: usize = 0;
    proof {
        assert(doctypes@.skip(0) =~= doctypes@);
    }
    while i < doctypes.len()
        invariant
            i <= doctypes@.len(),
            readable(doctypes@.skip(i as int), name@) == readable(doctypes@, name@),
        decreases doctypes@.len() - i,
    {
        proof {
            assert(doctypes@.skip(i as int).drop_first() =~= doctypes@.skip(i + 1));
        }
        if same_text(doctypes[i].name.as_str(), name) && doctypes[i].can_read {
            return Some(&doctypes[i]);
        }
        i += 1;
    }
    None
}

fn does_feed(doctype: &DocType, name: &str) -> (yes: bool)
    ensures
        yes == feeds(*doctype, name@),
{
    let mut j: usize = 0;
    while j < doctype.aggregates.len()
        invariant
            j <= doctype.aggregates@.len(),
            forall|k: int|
                0 <= k < j ==> (#[trigger] doctype.aggregates@[k]).rollup@ != name@,
        decreases doctype.aggregates@.len() - j,
    {
        if same_text(doctype.aggregates[j].rollup.as_str(), name) {
            return true;
        }
        j += 1;
    }
    false
}

fn has_rollup(doctypes: &[DocType], name: &str) -> (yes: bool)
    ensures
        yes == is_rollup(doctypes@, name@),
{
    let mut i: usize = 0;
    while i < doctypes.len()
        invariant
            i <= doctypes@.len(),
            forall|k: int| 0 <= k < i ==> !feeds(#[trigger] doctypes@[k], name@),
        decreases doctypes@.len() - i,
    {
        if does_feed(&doctypes[i], name) {
            return true;
        }
        i += 1;
    }
    false
}

fn href(kind: &str, target: &DocType, doctypes: &[DocType]) -> (href: Option<String>)
    ensures
        match href {
            Some(path) => href_of(kind@, *target, doctypes@) == Some(path@),
            None => href_of(kind@, *target, doctypes@) is None,
        },
{
    let name = target.name.as_str();
    if same_text(kind, "doctype") && target.issingle {
        Some("/single/".to_string().concat(name))
    } else if same_text(kind, "doctype") {
        Some("/list/".to_string().concat(name))
    } else if same_text(kind, "report") && has_rollup(doctypes, name) {
        Some("/report/".to_string().concat(name))
    } else {
        None
    }
}

fn link(item: &WorkspaceItem, doctypes: &[DocType]) -> (link: Option<WorkspaceLink>)
    ensures
        match link {
            Some(shown) => link_of(*item, doctypes@) == Some(shown@),
            None => link_of(*item, doctypes@) is None,
        },
{
    let target = match find_readable(doctypes, item.target.as_str()) {
        Some(target) => target,
        None => return None,
    };
    let href = match href(item.kind.as_str(), target, doctypes) {
        Some(href) => href,
        None => return None,
    };
    proof {
        reveal_strlit("");
        assert(item.label@.len() == 0 ==> item.label@ =~= ""@);
    }
    let label = if same_text(item.label.as_str(), "") {
        target.label_or_name()
    } else {
        item.label.as_str().to_string()
    };
    Some(WorkspaceLink { label, href })
}

/// The last entry adds its link, where it has one, behind those before it.
proof fn lemma_links_of_last(items: Seq<WorkspaceItem>, doctypes: Seq<DocType>)
    requires
        items.len() > 0,
    ensures
        links_of(items, doctypes) == (match link_of(items.last(), doctypes) {
            Some(shown) => links_of(items.drop_last(), doctypes).push(shown),
            None => links_of(items.drop_last(), doctypes),
        }),
{
    let front = items.drop_last();
    law_links_keep_the_order(front, doctypes);
    assert forall|k: int| 0 <= k < links_of(front, doctypes).len() implies links_of(
        items,
        doctypes,
    )[k] == links_of(front, doctypes)[k] by {
        assert(kept(items, doctypes)[k] == kept(front, doctypes)[k]);
        assert(items[kept(front, doctypes)[k]] == front[kept(front, doctypes)[k]]);
    }
    assert(links_of(items, doctypes) =~= (match link_of(items.last(), doctypes) {
        Some(shown) => links_of(front, doctypes).push(shown),
        None => links_of(front, doctypes),
    }));
}

/// The links of a workspace that the user may follow, in the order of their
/// entries.
pub fn workspace_links(workspace: &Workspace, doctypes: &[DocType]) -> (links: Vec<WorkspaceLink>)
    ensures
        links@.map_values(|link: WorkspaceLink| link@) == links_of(workspace.items@, doctypes@),
{
    let ghost items = workspace.items@;
    let mut links: Vec<WorkspaceLink> = Vec::new();
    let mut i: usize = 0;
    proof {
        assert(links@.map_values(|link: WorkspaceLink| link@) =~= links_of(
            items.take(0),
            doctypes@,
        ));
    }
    while i < workspace.items.len()
        invariant
            i <= items.len(),
            items == workspace.items@,
            links@.map_values(|link: WorkspaceLink| link@) == links_of(
                items.take(i as int),
                doctypes@,
            ),
        decreases items.len() - i,
    {
        let ghost shown_before = links@.map_values(|link: WorkspaceLink| link@);
        proof {
            assert(items.take(i + 1).drop_last() =~= items.take(i as int));
            lemma_links_of_last(items.take(i + 1), doctypes@);
        }
        if let Some(shown) = link(&workspace.items[i], doctypes) {
            links.push(shown);
            proof {
                assert(links@.map_values(|link: WorkspaceLink| link@) =~= shown_before.push(shown@));
            }
        }
        i += 1;
    }
    proof {
        assert(items.take(i as int) =~= items);
    }
    links
}

/// What a read of the workspaces asks for.
pub open spec fn workspace_query_view() -> JsonView {
    object_view(
        seq![
            ("limit"@, JsonView::Number(decimal_text(WORKSPACE_LIMIT as nat))),
            (
                "order"@,
                object_view(
                    seq![
                        ("path"@, JsonView::Text("label"@)),
                        ("dir"@, JsonView::Text("asc"@)),
                    ],
                ),
            ),
        ],
    )
}

/// The body of a read of the workspaces: all of them, by their labels.
pub fn workspace_query() -> (body: Value)
    ensures
        json_view(body) == workspace_query_view(),
{
    let mut order: Vec<(String, Value)> = Vec::new();
    order.push(("path".to_string(), string("label")));
    order.push(("dir".to_string(), string("asc")));
    let ghost inner = pair_views_of(order@);
    proof {
        assert(inner =~= seq![
            ("path"@, JsonView::Text("label"@)),
            ("dir"@, JsonView::Text("asc"@)),
        ]);
        reveal_strlit("path");
        reveal_strlit("dir");
        assert("path"@.len() != "dir"@.len());
    }
    let mut members: Vec<(String, Value)> = Vec::new();
    members.push(("limit".to_string(), number(WORKSPACE_LIMIT)));
    members.push(("order".to_string(), object(order)));
    proof {
        assert(pair_views_of(members@) =~= seq![
            ("limit"@, JsonView::Number(decimal_text(WORKSPACE_LIMIT as nat))),
            ("order"@, object_view(inner)),
        ]);
        reveal_strlit("limit");
        reveal_strlit("order");
        assert("limit"@[0] != "order"@[0]);
    }
    object(members)
}

/// The rows of the kernel's answer about the workspaces. A failed read is an
/// outage, never an empty directory: it is refused as the kernel's status says.
pub fn workspace_list(code: u16, body: &Value) -> (rows: Result<Value, Refusal>)
    ensures
        match rows {
            Ok(value) => code == 200 && json_view(value) == member_or_null(
                json_view(*body),
                "rows"@,
            ),
            Err(refusal) => code != 200 && refusal@ == refusal_for(code, json_view(*body)),
        },
{
    if code != 200 {
        Err(kernel_status(code, body))
    } else {
        Ok(copied(index(body, "rows")))
    }
}

/// The links of a workspace are those of the entries that have one: each once,
/// in the order of the entries.
pub proof fn law_links_keep_the_order(items: Seq<WorkspaceItem>, doctypes: Seq<DocType>)
    ensures
        links_of(items, doctypes).len() == kept(items, doctypes).len(),
        forall|j: int, k: int|
            0 <= j < k < kept(items, doctypes).len() ==> #[trigger] kept(items, doctypes)[j]
                < #[trigger] kept(items, doctypes)[k],
        forall|k: int|
            0 <= k < kept(items, doctypes).len() ==> {
                let i = #[trigger] kept(items, doctypes)[k];
                &&& 0 <= i < items.len()
                &&& link_of(items[i], doctypes) == Some(links_of(items, doctypes)[k])
            },
        forall|i: int|
            0 <= i < items.len() && link_of(#[trigger] items[i], doctypes) is Some ==> kept(
                items,
                doctypes,
            ).contains(i),
    decreases items.len(),
{
    if items.len() > 0 {
        let front = items.drop_last();
        let whole = kept(items, doctypes);
        let part = kept(front, doctypes);
        law_links_keep_the_order(front, doctypes);
        assert forall|k: int| 0 <= k < whole.len() implies {
            let i = #[trigger] whole[k];
            &&& 0 <= i < items.len()
            &&& link_of(items[i], doctypes) == Some(links_of(items, doctypes)[k])
        } by {
            if k < part.len() {
                assert(part[k] == whole[k]);
                assert(front[part[k]] == items[whole[k]]);
            }
        }
        assert forall|i: int|
            0 <= i < items.len() && link_of(
                #[trigger] items[i],
                doctypes,
            ) is Some implies whole.contains(i) by {
            if i < front.len() {
                assert(front[i] == items[i]);
                let k = choose|k: int| 0 <= k < part.len() && part[k] == i;
                assert(whole[k] == i);
            } else {
                assert(whole[whole.len() - 1] == i);
            }
        }
    }
}

/// The first readable DocType of a name is one of them, and may be read.
proof fn lemma_readable(doctypes: Seq<DocType>, name: Seq<char>)
    ensures
        readable(doctypes, name) matches Some(found) ==> exists|i: int|
            0 <= i < doctypes.len() && #[trigger] doctypes[i] == found && found.name@ == name
                && found.can_read,
        readable(doctypes, name) is None ==> forall|i: int|
            0 <= i < doctypes.len() && (#[trigger] doctypes[i]).name@ == name
                ==> !doctypes[i].can_read,
    decreases doctypes.len(),
{
    if doctypes.len() > 0 && !(doctypes[0].name@ == name && doctypes[0].can_read) {
        let rest = doctypes.drop_first();
        lemma_readable(rest, name);
        match readable(doctypes, name) {
            Some(found) => {
                let i = choose|i: int|
                    0 <= i < rest.len() && #[trigger] rest[i] == found && found.name@ == name
                        && found.can_read;
                assert(doctypes[i + 1] == found);
            },
            None => {
                assert forall|i: int|
                    0 <= i < doctypes.len() && (#[trigger] doctypes[i]).name@
                        == name implies !doctypes[i].can_read by {
                    if i > 0 {
                        assert(rest[i - 1] == doctypes[i]);
                    }
                }
            },
        }
    }
}

/// No link leads to what the user may not read.
pub proof fn law_only_readable_targets_are_linked(item: WorkspaceItem, doctypes: Seq<DocType>)
    requires
        forall|i: int|
            0 <= i < doctypes.len() && (#[trigger] doctypes[i]).name@ == item.target@
                ==> !doctypes[i].can_read,
    ensures
        link_of(item, doctypes) is None,
{
    lemma_readable(doctypes, item.target@);
}

/// A report is linked only where some DocType feeds the rollup that it shows.
pub proof fn law_a_report_shows_a_rollup(item: WorkspaceItem, doctypes: Seq<DocType>)
    requires
        link_of(item, doctypes) is Some,
        item.kind@ == "report"@,
    ensures
        is_rollup(doctypes, item.target@),
        link_of(item, doctypes)->0.href == "/report/"@ + item.target@,
{
    lemma_readable(doctypes, item.target@);
    reveal_strlit("report");
    reveal_strlit("doctype");
    assert("report"@[0] == 'r');
    assert("doctype"@[0] == 'd');
}

/// A link leads to one of three kinds of page, for the entry's own target, and
/// shows the entry's own words where it has some.
pub proof fn law_a_link_belongs_to_its_entry(item: WorkspaceItem, doctypes: Seq<DocType>)
    requires
        link_of(item, doctypes) is Some,
    ensures
        ({
            let href = link_of(item, doctypes)->0.href;
            ||| href == "/single/"@ + item.target@
            ||| href == "/list/"@ + item.target@
            ||| href == "/report/"@ + item.target@
        }),
        item.label@.len() > 0 ==> link_of(item, doctypes)->0.label == item.label@,
{
    lemma_readable(doctypes, item.target@);
}

/// The `k`th DocType is the first of that name that the user may read.
pub open spec fn is_first_readable(doctypes: Seq<DocType>, name: Seq<char>, k: int) -> bool {
    &&& 0 <= k < doctypes.len()
    &&& doctypes[k].name@ == name
    &&& doctypes[k].can_read
    &&& forall|j: int|
        0 <= j < k && (#[trigger] doctypes[j]).name@ == name ==> !doctypes[j].can_read
}

/// Some aggregate of some DocType, wherever it stands, has that rollup.
pub open spec fn is_aggregated(doctypes: Seq<DocType>, name: Seq<char>) -> bool {
    exists|i: int, g: int|
        0 <= i < doctypes.len() && 0 <= g < doctypes[i].aggregates@.len()
            && #[trigger] doctypes[i].aggregates@[g].rollup@ == name
}

proof fn lemma_first_readable(doctypes: Seq<DocType>, name: Seq<char>, k: int)
    requires
        is_first_readable(doctypes, name, k),
    ensures
        readable(doctypes, name) == Some(doctypes[k]),
    decreases k,
{
    if k > 0 {
        let rest = doctypes.drop_first();
        assert(doctypes[0].name@ == name ==> !doctypes[0].can_read);
        assert(rest[k - 1] == doctypes[k]);
        assert forall|j: int|
            0 <= j < k - 1 && (#[trigger] rest[j]).name@ == name implies !rest[j].can_read by {
            assert(rest[j] == doctypes[j + 1]);
        }
        lemma_first_readable(rest, name, k - 1);
    }
}

proof fn lemma_aggregated(doctypes: Seq<DocType>, name: Seq<char>)
    ensures
        is_aggregated(doctypes, name) <==> is_rollup(doctypes, name),
{
    if is_aggregated(doctypes, name) {
        let (i, g) = choose|i: int, g: int|
            0 <= i < doctypes.len() && 0 <= g < doctypes[i].aggregates@.len()
                && #[trigger] doctypes[i].aggregates@[g].rollup@ == name;
        assert(feeds(doctypes[i], name));
    }
    if is_rollup(doctypes, name) {
        let i = choose|i: int| 0 <= i < doctypes.len() && feeds(#[trigger] doctypes[i], name);
        let g = choose|g: int|
            0 <= g < doctypes[i].aggregates@.len()
                && (#[trigger] doctypes[i].aggregates@[g]).rollup@ == name;
        assert(doctypes[i].aggregates@[g].rollup@ == name);
    }
}

/// What an entry whose target the user may read is shown as: a DocType leads to its
/// one record or to its list, a report to the rollup that some DocType feeds, wherever
/// that DocType stands; nothing else is shown. The words are the entry's own, or else
/// the target's label, or else its name.
pub proof fn law_a_readable_target_is_linked(
    item: WorkspaceItem,
    doctypes: Seq<DocType>,
    k: int,
)
    requires
        is_first_readable(doctypes, item.target@, k),
    ensures
        ({
            let shown = link_of(item, doctypes);
            &&& item.kind@ == "doctype"@ && doctypes[k].issingle ==> shown is Some && shown->0.href
                == "/single/"@ + item.target@
            &&& item.kind@ == "doctype"@ && !doctypes[k].issingle ==> shown is Some
                && shown->0.href == "/list/"@ + item.target@
            &&& item.kind@ == "report"@ && is_aggregated(doctypes, item.target@) ==> shown is Some
                && shown->0.href == "/report/"@ + item.target@
            &&& item.kind@ == "report"@ && !is_aggregated(doctypes, item.target@) ==> shown is None
            &&& item.kind@ != "doctype"@ && item.kind@ != "report"@ ==> shown is None
            &&& shown is Some && item.label@.len() > 0 ==> shown->0.label == item.label@
            &&& shown is Some && item.label@.len() == 0 && doctypes[k].label@.len() > 0
                ==> shown->0.label == doctypes[k].label@
            &&& shown is Some && item.label@.len() == 0 && doctypes[k].label@.len() == 0
                ==> shown->0.label == item.target@
        }),
{
    lemma_first_readable(doctypes, item.target@, k);
    lemma_aggregated(doctypes, item.target@);
    reveal_strlit("report");
    reveal_strlit("doctype");
    assert("report"@[0] == 'r');
    assert("doctype"@[0] == 'd');
}

/// A report is linked wherever its target may be read and some aggregate of some
/// DocType, at any place of the list, has that rollup.
pub proof fn law_every_fed_report_is_linked(
    item: WorkspaceItem,
    doctypes: Seq<DocType>,
    r: int,
    f: int,
    g: int,
)
    requires
        item.kind@ == "report"@,
        0 <= r < doctypes.len(),
        doctypes[r].name@ == item.target@,
        doctypes[r].can_read,
        0 <= f < doctypes.len(),
        0 <= g < doctypes[f].aggregates@.len(),
        doctypes[f].aggregates@[g].rollup@ == item.target@,
    ensures
        link_of(item, doctypes) is Some,
        link_of(item, doctypes)->0.href == "/report/"@ + item.target@,
{
    let k = lemma_some_first(doctypes, item.target@, r);
    law_a_readable_target_is_linked(item, doctypes, k);
}

/// Every DocType that the user may read is linked by an entry for it.
pub proof fn law_every_readable_doctype_is_linked(
    item: WorkspaceItem,
    doctypes: Seq<DocType>,
    r: int,
)
    requires
        item.kind@ == "doctype"@,
        0 <= r < doctypes.len(),
        doctypes[r].name@ == item.target@,
        doctypes[r].can_read,
    ensures
        link_of(item, doctypes) is Some,
        link_of(item, doctypes)->0.href == "/single/"@ + item.target@ || link_of(
            item,
            doctypes,
        )->0.href == "/list/"@ + item.target@,
{
    let k = lemma_some_first(doctypes, item.target@, r);
    law_a_readable_target_is_linked(item, doctypes, k);
}

proof fn lemma_some_first(doctypes: Seq<DocType>, name: Seq<char>, r: int) -> (k: int)
    requires
        0 <= r < doctypes.len(),
        doctypes[r].name@ == name,
        doctypes[r].can_read,
    ensures
        is_first_readable(doctypes, name, k),
    decreases r,
{
    if forall|j: int|
        0 <= j < r && (#[trigger] doctypes[j]).name@ == name ==> !doctypes[j].can_read {
        r
    } else {
        let j = choose|j: int|
            0 <= j < r && (#[trigger] doctypes[j]).name@ == name && doctypes[j].can_read;
        lemma_some_first(doctypes, name, j)
    }
}

} // verus!
