use iceman::commands::list::{filter_entries, keep_marked, EntryKind, ListEntry, ListWalk, TableName};
use iceman::render::table_text;

fn parts(p: &[&str]) -> Vec<String> {
    p.iter().map(|s| s.to_string()).collect()
}

fn names(v: &[ListEntry]) -> Vec<(EntryKind, String)> {
    v.iter().map(|e| (e.kind, e.name.clone())).collect()
}

#[test]
fn walk_is_breadth_first() {
    let mut walk = ListWalk::new(vec![parts(&["a"]), parts(&["b"])]);
    let ns = walk.next_namespace().unwrap();
    assert_eq!(ns, parts(&["a"]));
    walk.visited(
        Some(vec![parts(&["a", "x"])]),
        Some(vec![TableName { namespace: parts(&["a"]), name: "t1".to_string() }]),
    );
    assert_eq!(walk.next_namespace().unwrap(), parts(&["b"]));
    walk.visited(None, None);
    assert_eq!(walk.next_namespace().unwrap(), parts(&["a", "x"]));
    walk.visited(Some(vec![]), Some(vec![TableName { namespace: parts(&["a", "x"]), name: "t2".to_string() }]));
    assert!(walk.next_namespace().is_none());
    let entries = walk.finish();
    assert_eq!(
        names(&entries),
        vec![
            (EntryKind::Namespace, "a".to_string()),
            (EntryKind::Table, "a.t1".to_string()),
            (EntryKind::Namespace, "b".to_string()),
            (EntryKind::Namespace, "a.x".to_string()),
            (EntryKind::Table, "a.x.t2".to_string()),
        ]
    );
}

fn sample() -> Vec<ListEntry> {
    vec![
        ListEntry { kind: EntryKind::Namespace, name: "analytics".to_string() },
        ListEntry { kind: EntryKind::Table, name: "analytics.orders".to_string() },
        ListEntry { kind: EntryKind::Table, name: "sales.orders_2024".to_string() },
    ]
}

#[test]
fn glob_filters_by_full_name() {
    let kept = filter_entries(sample(), Some("analytics.*")).unwrap();
    assert_eq!(names(&kept), vec![(EntryKind::Table, "analytics.orders".to_string())]);
    let kept = filter_entries(sample(), Some("*orders*")).unwrap();
    assert_eq!(kept.len(), 2);
    let kept = filter_entries(sample(), None).unwrap();
    assert_eq!(kept.len(), 3);
}

#[test]
fn bad_glob_is_an_error() {
    let err = filter_entries(sample(), Some("[abc")).unwrap_err();
    assert!(err.message().starts_with("Pattern syntax error near position "));
}

#[test]
fn entry_kind_names() {
    assert_eq!(EntryKind::Namespace.as_str(), "namespace");
    assert_eq!(EntryKind::Table.as_str(), "table");
}

#[test]
fn list_pattern_example_prints_matching_tables() {
    let mut walk = ListWalk::new(vec![parts(&["test"])]);
    walk.next_namespace();
    walk.visited(
        Some(vec![]),
        Some(vec![
            TableName { namespace: parts(&["test"]), name: "t1".to_string() },
            TableName { namespace: parts(&["test"]), name: "t3".to_string() },
        ]),
    );
    let kept = filter_entries(walk.finish(), Some("test.*")).unwrap();
    assert_eq!(table_text(&kept, false, false), "type\tname\ntable\ttest.t1\ntable\ttest.t3\n");
}

#[test]
fn keep_marked_keeps_marked_entries_in_order() {
    let e = |k: EntryKind, n: &str| ListEntry { kind: k, name: n.to_string() };
    let kept = keep_marked(vec![
        (e(EntryKind::Namespace, "a"), true),
        (e(EntryKind::Table, "a.t"), false),
        (e(EntryKind::Table, "a.u"), true),
    ]);
    assert_eq!(
        names(&kept),
        vec![(EntryKind::Namespace, "a".to_string()), (EntryKind::Table, "a.u".to_string())]
    );
    assert!(keep_marked(vec![]).is_empty());
}
