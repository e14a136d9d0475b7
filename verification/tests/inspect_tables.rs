use iceman::cli::{MetadataTable, OutputFormat};
use iceman::commands::inspect::entries::{
    self as entries, ContentKind, DataFileMeta, EntryStatus, FileFormat, ManifestEntryMeta,
};
use iceman::commands::inspect::files;
use iceman::commands::inspect::history::{self, current_ancestors};
use iceman::commands::inspect::legacy::legacy_table_text;
use iceman::commands::inspect::manifests::{self, ManifestContent, ManifestMeta, SnapshotManifests};
use iceman::commands::inspect::metadata_log;
use iceman::commands::inspect::partitions;
use iceman::commands::inspect::query::{
    create_table_statement, format_value, normalize_query, plan_query, query_tables, query_output, query_script, QueryRow,
    QueryValue,
};
use iceman::commands::inspect::refs;
use iceman::commands::inspect::snapshots;
use iceman::commands::inspect::{
    limit_rows, partition_strings, plan, resolve_snapshot, source_of, InspectError, InspectPlan, MetadataLogEntry,
    RefMeta, Retention, SnapshotLogEntry, SnapshotMeta, TableMeta, TableSource,
};
use iceman::render::{table_text, Cell, Tabular};

fn snap(id: i64, parent: Option<i64>, ts: i64) -> SnapshotMeta {
    SnapshotMeta {
        snapshot_id: id,
        parent_id: parent,
        timestamp_ms: ts,
        operation: "append".to_string(),
        manifest_list: format!("s3://bucket/snap-{id}.avro"),
        summary: vec![("added-records".to_string(), "10".to_string())],
    }
}

fn log(ts: i64, id: i64) -> SnapshotLogEntry {
    SnapshotLogEntry { timestamp_ms: ts, snapshot_id: id }
}

/// Snapshots 1 <- 2 <- 3 (current), and 4 on a side branch from 1.
fn sample_meta() -> TableMeta {
    TableMeta {
        current_snapshot_id: Some(3),
        snapshots: vec![snap(1, None, 100), snap(2, Some(1), 200), snap(3, Some(2), 300), snap(4, Some(1), 250)],
        snapshot_log: vec![log(100, 1), log(200, 2), log(250, 4), log(300, 3)],
        metadata_log: vec![MetadataLogEntry { timestamp_ms: 50, metadata_file: "v1.metadata.json".to_string() }],
        refs: vec![
            RefMeta {
                name: "main".to_string(),
                snapshot_id: 3,
                retention: Retention::Branch {
                    min_snapshots_to_keep: Some(5),
                    max_snapshot_age_ms: None,
                    max_ref_age_ms: Some(1000),
                },
            },
            RefMeta { name: "v1".to_string(), snapshot_id: 1, retention: Retention::Tag { max_ref_age_ms: None } },
        ],
        default_spec_id: 0,
    }
}

fn data_file(content: ContentKind, path: &str, records: u64, size: u64, partition: Vec<Option<&str>>) -> DataFileMeta {
    DataFileMeta {
        content,
        file_path: path.to_string(),
        file_format: FileFormat::Parquet,
        record_count: records,
        file_size_in_bytes: size,
        partition: partition.into_iter().map(|p| p.map(|x| x.to_string())).collect(),
        column_sizes: vec![],
        value_counts: vec![],
        null_value_counts: vec![],
        nan_value_counts: vec![],
        lower_bounds: vec![],
        upper_bounds: vec![],
        sort_order_id: None,
    }
}

fn entry(status: EntryStatus, df: DataFileMeta) -> ManifestEntryMeta {
    ManifestEntryMeta { status, snapshot_id: Some(3), sequence_number: Some(7), file_sequence_number: Some(5), data_file: df }
}

fn displayed<T: Tabular>(row: &T, verbose: bool) -> Vec<String> {
    row.row(verbose).iter().map(|c| c.display()).collect()
}

#[test]
fn history_marks_current_ancestors() {
    let meta = sample_meta();
    let rows = history::extract(&meta);
    let got: Vec<(i64, Option<i64>, bool)> = rows.iter().map(|r| (r.snapshot_id, r.parent_id, r.is_current_ancestor)).collect();
    assert_eq!(got, vec![(1, None, true), (2, Some(1), true), (4, Some(1), false), (3, Some(2), true)]);
    assert_eq!(rows[3].made_current_at, 300);
    assert_eq!(displayed(&rows[0], false), vec!["100", "1", "", "true"]);
}

#[test]
fn history_without_current_snapshot_has_no_ancestors() {
    let mut meta = sample_meta();
    meta.current_snapshot_id = None;
    assert!(current_ancestors(&meta).is_empty());
    assert!(history::extract(&meta).iter().all(|r| !r.is_current_ancestor));
}

#[test]
fn ancestor_walk_stops_on_a_cycle() {
    let meta = TableMeta {
        current_snapshot_id: Some(1),
        snapshots: vec![snap(1, Some(2), 1), snap(2, Some(1), 2), snap(3, None, 3)],
        snapshot_log: vec![],
        metadata_log: vec![],
        refs: vec![],
        default_spec_id: 0,
    };
    let mut a = current_ancestors(&meta);
    a.sort();
    assert_eq!(a, vec![1, 2]);
}

#[test]
fn ancestor_walk_stops_at_an_unknown_parent() {
    let meta = TableMeta {
        current_snapshot_id: Some(2),
        snapshots: vec![snap(2, Some(9), 1)],
        snapshot_log: vec![],
        metadata_log: vec![],
        refs: vec![],
        default_spec_id: 0,
    };
    assert_eq!(current_ancestors(&meta), vec![2, 9]);
}

#[test]
fn snapshots_rows_show_summary_as_json() {
    let meta = sample_meta();
    let rows = snapshots::extract(&meta);
    assert_eq!(rows.len(), 4);
    assert_eq!(
        displayed(&rows[1], false),
        vec!["2", "1", "200", "append", "s3://bucket/snap-2.avro", "{\"added-records\":\"10\"}"]
    );
}

#[test]
fn refs_rows_show_branch_and_tag_retention() {
    let rows = refs::extract(&sample_meta());
    assert_eq!(displayed(&rows[0], false), vec!["main", "branch", "3", "1000", "5", ""]);
    assert_eq!(displayed(&rows[1], false), vec!["v1", "tag", "1", "", "", ""]);
}

#[test]
fn metadata_log_rows() {
    let rows = metadata_log::extract(&sample_meta());
    assert_eq!(rows.len(), 1);
    assert_eq!(displayed(&rows[0], false), vec!["50", "v1.metadata.json"]);
}

#[test]
fn resolve_snapshot_by_id_and_current() {
    let meta = sample_meta();
    assert_eq!(resolve_snapshot(&meta, Some(2)).unwrap().snapshot_id, 2);
    assert_eq!(resolve_snapshot(&meta, None).unwrap().snapshot_id, 3);
    let err = resolve_snapshot(&meta, Some(99)).err().unwrap();
    assert_eq!(err.message(), "snapshot 99 not found");
    let mut empty = sample_meta();
    empty.current_snapshot_id = None;
    let err = resolve_snapshot(&empty, None).err().unwrap();
    assert_eq!(err.message(), "table has no current snapshot");
}

#[test]
fn nothing_to_inspect_is_an_error() {
    assert!(matches!(plan(None, None), Err(InspectError::NothingToInspect)));
    assert_eq!(
        InspectError::NothingToInspect.message(),
        "either a metadata table positional argument or --query/-q is required"
    );
    assert!(matches!(plan(Some(MetadataTable::Refs), None), Ok(InspectPlan::Table(MetadataTable::Refs))));
    match plan(Some(MetadataTable::Refs), Some("select 1")) {
        Ok(InspectPlan::Query(q)) => assert_eq!(q, "select 1"),
        _ => panic!("expected a query plan"),
    }
}

#[test]
fn table_sources() {
    assert_eq!(source_of(MetadataTable::History), TableSource::Metadata);
    assert_eq!(source_of(MetadataTable::Manifests), TableSource::SnapshotManifests);
    assert_eq!(source_of(MetadataTable::AllManifests), TableSource::AllManifestLists);
    assert_eq!(source_of(MetadataTable::Partitions), TableSource::SnapshotEntries);
    assert_eq!(source_of(MetadataTable::AllDeleteFiles), TableSource::AllSnapshotEntries);
}

#[test]
fn limit_keeps_the_front() {
    assert_eq!(limit_rows(vec![1, 2, 3], Some(2)), vec![1, 2]);
    assert_eq!(limit_rows(vec![1, 2, 3], Some(5)), vec![1, 2, 3]);
    assert_eq!(limit_rows(vec![1, 2, 3], None), vec![1, 2, 3]);
    assert_eq!(limit_rows(vec![1, 2, 3], Some(0)), Vec::<i32>::new());
}

#[test]
fn partition_values_render_null() {
    let v = vec![Some("2024-01-01".to_string()), None];
    assert_eq!(partition_strings(&v), vec!["2024-01-01", "null"]);
}

fn manifest(path: &str, added_snapshot: i64) -> ManifestMeta {
    ManifestMeta {
        content: ManifestContent::Data,
        path: path.to_string(),
        length: 4096,
        partition_spec_id: 0,
        added_snapshot_id: added_snapshot,
        added_files_count: Some(2),
        existing_files_count: None,
        deleted_files_count: Some(0),
        added_rows_count: Some(20),
        existing_rows_count: None,
        deleted_rows_count: Some(0),
    }
}

#[test]
fn all_manifests_lists_every_manifest_of_every_snapshot() {
    let lists = vec![
        SnapshotManifests { snapshot_id: 1, manifests: vec![manifest("m1", 1)] },
        SnapshotManifests { snapshot_id: 2, manifests: vec![manifest("m1", 1), manifest("m2", 2)] },
        SnapshotManifests { snapshot_id: 3, manifests: vec![manifest("m2", 2), manifest("m3", 3), manifest("m1", 1)] },
    ];
    let rows = manifests::all(&lists);
    let got: Vec<(String, Option<i64>)> = rows.iter().map(|r| (r.path.clone(), r.reference_snapshot_id)).collect();
    let want: Vec<(String, Option<i64>)> = [("m1", 1), ("m1", 2), ("m2", 2), ("m2", 3), ("m3", 3), ("m1", 3)]
        .iter()
        .map(|(p, s)| (p.to_string(), Some(*s)))
        .collect();
    assert_eq!(got, want);
    let current = manifests::current(&lists[2].manifests);
    assert_eq!(current.len(), 3);
    assert_eq!(current[0].reference_snapshot_id, None);
    assert_eq!(displayed(&current[1], false), vec!["0", "m3", "4096", "0", "3", "2", "", "0", "20", "", "0", ""]);
}

#[test]
fn entries_rows_copy_both_sequence_numbers() {
    let es = vec![
        entry(EntryStatus::Added, data_file(ContentKind::Data, "a.parquet", 10, 100, vec![Some("1")])),
        entry(EntryStatus::Deleted, data_file(ContentKind::PositionDeletes, "d.parquet", 2, 20, vec![])),
    ];
    let rows = entries::current(&es);
    assert_eq!(rows.len(), 2);
    assert_eq!(rows[0].sequence_number, Some(7));
    assert_eq!(rows[0].file_sequence_number, Some(5));
    assert_eq!(
        displayed(&rows[0], true),
        vec!["1", "3", "7", "5", "0", "a.parquet", "Parquet", "10", "100", "[\"1\"]"]
    );
    assert_eq!(displayed(&rows[1], false), vec!["2", "3", "1", "d.parquet", "2", "20"]);
    let all = entries::all(&vec![es, vec![]]);
    assert_eq!(all.len(), 2);
}

#[test]
fn file_tables_select_live_files() {
    let es = vec![
        entry(EntryStatus::Added, data_file(ContentKind::Data, "a", 10, 100, vec![])),
        entry(EntryStatus::Existing, data_file(ContentKind::EqualityDeletes, "b", 1, 10, vec![])),
        entry(EntryStatus::Deleted, data_file(ContentKind::Data, "c", 5, 50, vec![])),
    ];
    let paths = |rows: Vec<files::FileRow>| rows.into_iter().map(|r| r.file_path).collect::<Vec<_>>();
    assert_eq!(paths(files::alive(&es)), vec!["a", "b"]);
    assert_eq!(paths(files::data(&es)), vec!["a"]);
    assert_eq!(paths(files::delete(&es)), vec!["b"]);
    let lists = vec![es];
    assert_eq!(paths(files::all_data(&lists)), vec!["a"]);
    assert_eq!(paths(files::all_delete(&lists)), vec!["b"]);
}

#[test]
fn file_statistics_are_sorted_json_objects() {
    let mut df = data_file(ContentKind::Data, "a", 10, 100, vec![]);
    df.column_sizes = vec![(2, 20), (10, 100), (1, 10)];
    df.lower_bounds = vec![(1, "a\"b".to_string())];
    df.sort_order_id = Some(0);
    let row = files::from_data_file(&df);
    let cells = displayed(&row, false);
    assert_eq!(cells[6], "{\"1\":10,\"10\":100,\"2\":20}");
    assert_eq!(cells[7], "");
    assert_eq!(cells[10], "{\"1\":\"a\\\"b\"}");
    assert_eq!(cells[12], "0");
}

#[test]
fn partitions_group_sum_and_sort() {
    let es = vec![
        entry(EntryStatus::Added, data_file(ContentKind::Data, "a", 10, 100, vec![Some("b"), None])),
        entry(EntryStatus::Added, data_file(ContentKind::Data, "b", 5, 50, vec![Some("a"), Some("x")])),
        entry(EntryStatus::Existing, data_file(ContentKind::PositionDeletes, "c", 2, 7, vec![Some("b"), None])),
        entry(EntryStatus::Added, data_file(ContentKind::EqualityDeletes, "d", 3, 9, vec![Some("b"), None])),
        entry(EntryStatus::Deleted, data_file(ContentKind::Data, "e", 100, 1000, vec![Some("b"), None])),
        entry(EntryStatus::Added, data_file(ContentKind::Data, "f", 1, 1, vec![Some("b"), None])),
    ];
    let rows = partitions::extract(&es, 4);
    assert_eq!(rows.len(), 2);
    assert_eq!(rows[0].partition, "[\"a\",\"x\"]");
    assert_eq!(rows[1].partition, "[\"b\",null]");
    let b = &rows[1];
    assert_eq!(
        (b.spec_id, b.record_count, b.file_count, b.total_data_file_size_in_bytes),
        (4, 11, 2, 101)
    );
    assert_eq!((b.position_delete_record_count, b.position_delete_file_count), (2, 1));
    assert_eq!((b.equality_delete_record_count, b.equality_delete_file_count), (3, 1));
    assert_eq!(displayed(&rows[0], false), vec!["[\"a\",\"x\"]", "1", "5", "50"]);
}

#[test]
fn typed_table_text_for_refs() {
    let rows = refs::extract(&sample_meta());
    let text = table_text(&rows, false, false);
    assert!(text.starts_with("name\ttype\tsnapshot_id\t"));
    assert!(text.ends_with("v1\ttag\t1\t\t\t\n"));
}

#[test]
fn query_text_is_normalized() {
    assert_eq!(normalize_query("  SELECT * FROM snapshots;; "), "SELECT * FROM snapshots;;");
    assert_eq!(normalize_query("  SELECT * FROM snapshots;;"), "SELECT * FROM snapshots");
    let p = plan_query("SELECT * FROM Snapshots JOIN all_data_files USING (x);", true);
    assert_eq!(p.sql, "SELECT * FROM Snapshots JOIN all_data_files USING (x)");
    let names: Vec<&str> = p.tables.iter().map(|t| t.sql_name()).collect();
    assert_eq!(names, vec!["snapshots", "files", "data_files", "all_data_files"]);
    let p = plan_query("select * from all_data_files", false);
    assert!(p.tables.is_empty());
}

#[test]
fn query_script_layout() {
    let stmt = create_table_statement("refs", "/tmp/x/refs.ndjson");
    assert_eq!(stmt, "CREATE TABLE refs AS SELECT * FROM read_json_auto('/tmp/x/refs.ndjson')");
    let script = query_script(&vec![stmt], "SELECT 1", "/tmp/x/_result.json");
    assert_eq!(
        script,
        "CREATE TABLE refs AS SELECT * FROM read_json_auto('/tmp/x/refs.ndjson');\nCOPY (SELECT 1) TO '/tmp/x/_result.json' (FORMAT JSON, ARRAY TRUE);\n"
    );
}

fn obj(text: &str, fields: Vec<(&str, QueryValue)>) -> QueryRow {
    QueryRow {
        text: text.to_string(),
        fields: Some(fields.into_iter().map(|(k, v)| (k.to_string(), v)).collect()),
    }
}

#[test]
fn query_result_as_table() {
    let rows = vec![
        obj("{\"n\":1,\"s\":\"a\"}", vec![("n", QueryValue::Number("1".to_string())), ("s", QueryValue::Str("a".to_string()))]),
        obj("{\"n\":22,\"s\":null}", vec![("n", QueryValue::Number("22".to_string())), ("s", QueryValue::Null)]),
    ];
    assert_eq!(query_output(&rows, None, OutputFormat::Text, false), "n\ts\n1\ta\n22\t\n");
    assert_eq!(query_output(&rows, None, OutputFormat::Text, true), " n  s\n 1  a\n22  \n");
    assert_eq!(query_output(&rows, Some(1), OutputFormat::Json, true), "{\"n\":1,\"s\":\"a\"}\n");
    assert_eq!(query_output(&vec![], None, OutputFormat::Text, true), "");
    let scalars = vec![QueryRow { text: "3".to_string(), fields: None }];
    assert_eq!(query_output(&scalars, None, OutputFormat::Text, true), "3\n");
}

#[test]
fn query_values_format() {
    assert_eq!(format_value(None), "");
    assert_eq!(format_value(Some(&QueryValue::Null)), "");
    assert_eq!(format_value(Some(&QueryValue::Bool(true))), "true");
    assert_eq!(format_value(Some(&QueryValue::Str("x".to_string()))), "x");
    assert_eq!(format_value(Some(&QueryValue::Nested("[1,2]".to_string()))), "[1,2]");
}

#[test]
fn cells_of_rows_are_consistent() {
    let rows = history::extract(&sample_meta());
    assert!(matches!(rows[0].row(false)[2], Cell::Null));
}

#[test]
fn legacy_table_pads_rules_and_cuts_long_values() {
    let long = "x".repeat(70);
    let rows = vec![
        obj("{}", vec![("id", QueryValue::Number("1".to_string())), ("name", QueryValue::Str("alpha".to_string()))]),
        QueryRow { text: "7".to_string(), fields: None },
        obj("{}", vec![("id", QueryValue::Number("22".to_string())), ("name", QueryValue::Str(long.clone()))]),
    ];
    let expected = format!(
        "id  {:<60}\n--  {}\n1   {:<60}\n22  {}...\n",
        "name",
        "-".repeat(60),
        "alpha",
        &long[..57]
    );
    assert_eq!(legacy_table_text(&rows), expected);
    assert_eq!(legacy_table_text(&vec![]), "");
    let scalars = vec![QueryRow { text: "3".to_string(), fields: None }];
    assert_eq!(legacy_table_text(&scalars), "3\n");
}

fn compact_columns_found_in_verbose<T: Tabular>(row: &T) {
    let compact = T::headers(false);
    let verbose = T::headers(true);
    let compact_cells = displayed(row, false);
    let verbose_cells = displayed(row, true);
    for (j, h) in compact.iter().enumerate() {
        let k = verbose.iter().position(|v| v == h).expect("compact header shown verbosely");
        assert_eq!(compact_cells[j], verbose_cells[k], "column {h}");
    }
}

#[test]
fn verbose_layout_shows_every_compact_column() {
    let es = vec![
        entry(EntryStatus::Added, data_file(ContentKind::Data, "a.parquet", 10, 100, vec![Some("1")])),
        entry(EntryStatus::Existing, data_file(ContentKind::PositionDeletes, "d.parquet", 2, 20, vec![Some("1")])),
    ];
    for row in entries::current(&es) {
        compact_columns_found_in_verbose(&row);
    }
    for row in partitions::extract(&es, 3) {
        compact_columns_found_in_verbose(&row);
    }
    for row in history::extract(&sample_meta()) {
        compact_columns_found_in_verbose(&row);
    }
}

#[test]
fn partition_sums_that_overflow_are_refused() {
    let big = u64::MAX / 2 + 1;
    let same = vec![
        entry(EntryStatus::Added, data_file(ContentKind::Data, "a", big, 1, vec![Some("p")])),
        entry(EntryStatus::Added, data_file(ContentKind::Data, "b", big, 1, vec![Some("p")])),
    ];
    assert!(partitions::try_extract(&same, 0).is_none());
    let apart = vec![
        entry(EntryStatus::Added, data_file(ContentKind::Data, "a", big, 1, vec![Some("p")])),
        entry(EntryStatus::Added, data_file(ContentKind::Data, "b", big, 1, vec![Some("q")])),
        entry(EntryStatus::Deleted, data_file(ContentKind::Data, "c", big, 1, vec![Some("p")])),
    ];
    let rows = partitions::try_extract(&apart, 0).expect("each partition fits");
    assert_eq!(rows.len(), 2);
    assert_eq!((rows[0].partition.as_str(), rows[0].record_count), ("[\"p\"]", big));
}

#[test]
fn metadata_validity_needs_unique_ids_and_a_known_current_snapshot() {
    assert!(sample_meta().is_valid());
    let mut twice = sample_meta();
    twice.snapshots.push(snap(2, None, 400));
    assert!(!twice.is_valid());
    let mut dangling = sample_meta();
    dangling.current_snapshot_id = Some(9);
    assert!(!dangling.is_valid());
    let mut none = sample_meta();
    none.current_snapshot_id = None;
    assert!(none.is_valid());
}

#[test]
fn query_tables_are_those_named_in_the_lowered_query() {
    let sql = "select * from all_entries, refs";
    assert_eq!(query_tables(sql, false), vec![MetadataTable::Refs]);
    assert_eq!(
        query_tables(sql, true),
        vec![MetadataTable::Refs, MetadataTable::Entries, MetadataTable::AllEntries]
    );
    assert_eq!(query_tables("SELECT * FROM REFS", true), vec![]);
}
