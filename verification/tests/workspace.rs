use desk::refusal::Refusal;
use desk::workspace::{
    workspace_links, workspace_list, workspace_query, Aggregate, DocType, Workspace, WorkspaceItem,
    WorkspaceLink,
};
use serde_json::Value;

fn json(text: &str) -> Value {
    serde_json::from_str(text).unwrap()
}

fn item(label: &str, kind: &str, target: &str) -> WorkspaceItem {
    WorkspaceItem {
        label: label.to_string(),
        kind: kind.to_string(),
        target: target.to_string(),
    }
}

fn doctype(name: &str, label: &str, issingle: bool, can_read: bool, rollups: &[&str]) -> DocType {
    DocType {
        name: name.to_string(),
        label: label.to_string(),
        issingle,
        can_read,
        aggregates: rollups
            .iter()
            .map(|rollup| Aggregate {
                kind: "counter".to_string(),
                rollup: rollup.to_string(),
            })
            .collect(),
    }
}

fn directory(items: Vec<WorkspaceItem>) -> Workspace {
    Workspace {
        label: "Accounting".to_string(),
        module: String::new(),
        items,
    }
}

fn link(label: &str, href: &str) -> WorkspaceLink {
    WorkspaceLink {
        label: label.to_string(),
        href: href.to_string(),
    }
}

#[test]
fn workspace_items_keep_order_and_filter_unreadable_targets() {
    let workspace = directory(vec![
        item("Sales invoices", "doctype", "sales_invoice"),
        item("Accounts receivable", "report", "ar_outstanding"),
        item("Missing", "doctype", "missing"),
    ]);
    let doctypes = vec![
        doctype("sales_invoice", "", false, true, &["ar_outstanding"]),
        doctype("ar_outstanding", "", false, false, &[]),
    ];

    let clerk = workspace_links(&workspace, &doctypes);
    assert_eq!(clerk.len(), 1);
    assert_eq!(clerk[0].label, "Sales invoices");
    assert_eq!(clerk[0].href, "/list/sales_invoice");

    let mut manager_doctypes = doctypes;
    manager_doctypes[1].can_read = true;
    let manager = workspace_links(&workspace, &manager_doctypes);
    assert_eq!(
        manager
            .iter()
            .map(|link| link.label.as_str())
            .collect::<Vec<_>>(),
        vec!["Sales invoices", "Accounts receivable"]
    );
    assert_eq!(manager[1].href, "/report/ar_outstanding");
}

#[test]
fn a_link_without_words_shows_those_of_its_target() {
    let doctypes = [
        doctype("a", "Alpha", false, true, &[]),
        doctype("b", "", true, true, &[]),
    ];
    let workspace = directory(vec![item("", "doctype", "a"), item("", "doctype", "b")]);
    assert_eq!(
        workspace_links(&workspace, &doctypes),
        [link("Alpha", "/list/a"), link("b", "/single/b")]
    );
    assert_eq!(doctypes[0].label_or_name(), "Alpha");
    assert_eq!(doctypes[1].label_or_name(), "b");
}

#[test]
fn what_is_no_rollup_is_no_report() {
    let workspace = directory(vec![
        item("x", "report", "a"),
        item("y", "page", "a"),
        item("z", "", "a"),
    ]);
    let doctypes = [doctype("a", "", false, true, &["b"])];
    assert_eq!(workspace_links(&workspace, &doctypes), []);
    let doctypes = [
        doctype("a", "", false, true, &[]),
        doctype("hidden", "", false, false, &["c", "a"]),
    ];
    assert_eq!(workspace_links(&workspace, &doctypes), [link("x", "/report/a")]);
}

#[test]
fn the_first_readable_target_counts() {
    let workspace = directory(vec![item("", "doctype", "a"), item("again", "doctype", "a")]);
    let doctypes = [
        doctype("a", "unreadable", false, false, &[]),
        doctype("a", "first", true, true, &[]),
        doctype("a", "second", false, true, &[]),
    ];
    assert_eq!(
        workspace_links(&workspace, &doctypes),
        [link("first", "/single/a"), link("again", "/single/a")]
    );
    assert_eq!(workspace_links(&workspace, &[]), []);
    assert_eq!(workspace_links(&directory(vec![]), &doctypes), []);
}

#[test]
fn a_failed_read_is_never_an_empty_directory() {
    let down = json(r#"{ "error": { "kind": "db", "detail": "workspace store down" } }"#);
    assert_eq!(
        workspace_list(500, &down),
        Err(Refusal::Internal("Something went wrong on the server.".to_string()))
    );
    assert_eq!(workspace_list(401, &down), Err(Refusal::Redirect("/login".to_string())));
    assert_eq!(workspace_list(503, &down), Err(Refusal::Busy(2)));
    assert_eq!(workspace_list(200, &json(r#"{ "rows": [] }"#)), Ok(json("[]")));
    assert_eq!(workspace_list(200, &json(r#"{ "rows": [1] }"#)), Ok(json("[1]")));
    assert_eq!(workspace_list(200, &json("{}")), Ok(Value::Null));
}

#[test]
fn workspaces_are_read_by_their_labels() {
    assert_eq!(
        workspace_query(),
        json(r#"{ "limit": 200, "order": { "path": "label", "dir": "asc" } }"#)
    );
}
