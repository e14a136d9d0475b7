use iceman::cli::EntityType;
use iceman::commands::describe::{
    describe_order, fmt_timestamp, timestamp_or_millis, namespace_info, table_info, CurrentSnapshot, DescribeOrder, Described,
    NullOrder, PartitionField, SchemaField, SortDirection, SortFieldMeta, TableDescription,
};
use iceman::render::DisplayText;

fn field(id: i32, name: &str, ty: &str, required: bool) -> SchemaField {
    SchemaField { id, name: name.to_string(), field_type: ty.to_string(), required }
}

fn description() -> TableDescription {
    TableDescription {
        location: "s3://wh/db/orders".to_string(),
        uuid: "0f0e".to_string(),
        format_version: 2,
        current_snapshot_id: Some(42),
        current_snapshot: Some(CurrentSnapshot { timestamp_ms: 0, operation: "append".to_string() }),
        history_len: 3,
        schema: vec![field(1, "id", "long", true), field(2, "customer_name", "string", false)],
        partition_fields: vec![PartitionField {
            name: "id_bucket".to_string(),
            source_id: 1,
            transform: "bucket[16]".to_string(),
        }],
        sort_fields: vec![
            SortFieldMeta { source_id: 2, direction: SortDirection::Descending, null_order: NullOrder::Last },
            SortFieldMeta { source_id: 9, direction: SortDirection::Ascending, null_order: NullOrder::First },
        ],
        properties: vec![
            ("write.format.default".to_string(), "parquet".to_string()),
            ("owner".to_string(), "me".to_string()),
        ],
    }
}

#[test]
fn table_text_layout() {
    let info = table_info(&description(), "db.orders");
    assert_eq!(info.kind, "table");
    assert_eq!(info.current_snapshot_timestamp_ms, None);
    let text = info.fmt_text();
    let expected = "table:     db.orders\n\
location:  s3://wh/db/orders\n\
uuid:      0f0e\n\
format:    v2\n\
snapshot:  42 (append, )\n\
history:   3 snapshots\n\
\n\
schema:\n\
\x20   id  name           type    required\n\
\x20    1  id             long    true\n\
\x20    2  customer_name  string  false\n\
\n\
partition:\n\
\x20 id_bucket  bucket[16]\n\
\n\
sort-order:\n\
\x20 customer_name  descending  last\n\
\x20 ?  ascending  first\n\
\n\
properties:\n\
\x20 owner                 me\n\
\x20 write.format.default  parquet\n";
    assert_eq!(text, expected);
}

#[test]
fn void_partition_spec_is_unpartitioned() {
    let mut d = description();
    d.partition_fields = vec![PartitionField { name: "x".to_string(), source_id: 1, transform: "void".to_string() }];
    d.sort_fields = vec![];
    d.properties = vec![];
    d.current_snapshot_id = None;
    d.current_snapshot = None;
    let info = table_info(&d, "db.t");
    assert!(info.partition_spec.is_empty());
    let text = Described::Table(info).fmt_text();
    assert!(text.ends_with("  2  customer_name  string  false\n"));
    assert!(!text.contains("snapshot:"));
}

#[test]
fn later_properties_replace_earlier_ones() {
    let props = vec![
        ("b".to_string(), "1".to_string()),
        ("a".to_string(), "2".to_string()),
        ("b".to_string(), "3".to_string()),
    ];
    let ns = namespace_info(&props, "db");
    assert_eq!(ns.kind, "namespace");
    assert_eq!(ns.fmt_text(), "namespace:  db\n\nproperties:\n  a  2\n  b  3\n");
    let empty = namespace_info(&vec![], "db");
    assert_eq!(empty.fmt_text(), "namespace:  db\n");
}

#[test]
fn timestamps_render_in_utc() {
    assert_eq!(fmt_timestamp(0), "");
    assert_eq!(fmt_timestamp(1_700_000_000_000), "2023-11-14T22:13:20Z");
    assert_eq!(fmt_timestamp(i64::MAX), i64::MAX.to_string());
}

#[test]
fn snapshot_line_carries_the_time() {
    let mut d = description();
    d.current_snapshot = Some(CurrentSnapshot { timestamp_ms: 1_700_000_000_000, operation: "overwrite".to_string() });
    let text = table_info(&d, "db.orders").fmt_text();
    assert!(text.contains("snapshot:  42 (overwrite, 2023-11-14T22:13:20Z)\n"));
}

#[test]
fn describe_lookup_order() {
    assert_eq!(describe_order(2, EntityType::Any), DescribeOrder::TableThenNamespace);
    assert_eq!(describe_order(1, EntityType::Any), DescribeOrder::NamespaceOnly);
    assert_eq!(describe_order(1, EntityType::Table), DescribeOrder::TableOnly);
    assert_eq!(describe_order(3, EntityType::Namespace), DescribeOrder::NamespaceOnly);
}

#[test]
fn timestamp_falls_back_to_the_number() {
    assert_eq!(timestamp_or_millis(5, Some("1970-01-01T00:00:00Z".to_string())), "1970-01-01T00:00:00Z");
    assert_eq!(timestamp_or_millis(-42, None), "-42");
}
