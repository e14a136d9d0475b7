use iceman::render::{table_text, write_padded_strings, write_tsv, Cell};
use iceman::commands::list::{EntryKind, ListEntry};

#[test]
fn tsv_writes_tab_separated_values_with_header() {
    let mut out = String::new();
    let headers = ["id", "name"];
    let rows = vec![
        vec!["1".to_string(), "alpha".to_string()],
        vec!["22".to_string(), "beta gamma".to_string()],
    ];
    write_tsv(&mut out, &headers, &rows);
    assert_eq!(out, "id\tname\n1\talpha\n22\tbeta gamma\n");
}

#[test]
fn padded_aligns_numeric_right_and_strips_trailing_text() {
    let mut out = String::new();
    let headers = ["id", "name"];
    let rows = vec![
        vec!["1".to_string(), "alpha".to_string()],
        vec!["22".to_string(), "beta".to_string()],
    ];
    write_padded_strings(&mut out, &headers, &rows, &[true, false]);
    // numeric col right-aligned to width 2; trailing text col not padded.
    assert_eq!(out, "id  name\n 1  alpha\n22  beta\n");
}

#[test]
fn cells_display_as_text() {
    assert_eq!(Cell::Int(-42).display(), "-42");
    assert_eq!(Cell::UInt(18446744073709551615).display(), "18446744073709551615");
    assert_eq!(Cell::Bool(false).display(), "false");
    assert_eq!(Cell::Null.display(), "");
    assert_eq!(Cell::Str("x y".to_string()).display(), "x y");
    assert!(Cell::Int(0).is_numeric());
    assert!(!Cell::Null.is_numeric());
}

#[test]
fn table_text_pads_text_columns_but_the_last() {
    let rows = vec![
        ListEntry { kind: EntryKind::Namespace, name: "db".to_string() },
        ListEntry { kind: EntryKind::Table, name: "db.orders".to_string() },
    ];
    assert_eq!(table_text(&rows, false, true), "type       name\nnamespace  db\ntable      db.orders\n");
    assert_eq!(table_text(&rows, false, false), "type\tname\nnamespace\tdb\ntable\tdb.orders\n");
}

#[test]
fn padded_widths_count_bytes() {
    let mut out = String::new();
    let headers = ["k", "v"];
    let rows = vec![vec!["é".to_string(), "x".to_string()]];
    write_padded_strings(&mut out, &headers, &rows, &[false, false]);
    // "é" is two bytes wide, so the header is padded to two characters.
    assert_eq!(out, "k   v\né   x\n");
}

#[test]
fn tsv_keeps_one_tab_between_columns() {
    let mut out = String::new();
    let headers = ["x", "y"];
    let rows = vec![vec!["a\tb".to_string(), "c".to_string()]];
    write_tsv(&mut out, &headers, &rows);
    assert_eq!(out, "x\ty\na b\tc\n");
    assert!(out.lines().all(|l| l.matches('\t').count() == 1));
}

#[test]
fn padded_accepts_short_rows_and_longer_numeric_flags() {
    let mut out = String::new();
    let headers = ["id", "name"];
    let rows = vec![vec!["7".to_string()], vec!["22".to_string(), "beta".to_string()]];
    write_padded_strings(&mut out, &headers, &rows, &[true, false, true]);
    assert_eq!(out, "id  name\n 7\n22  beta\n");
}
