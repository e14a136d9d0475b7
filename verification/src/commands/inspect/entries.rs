//! Manifest entries and data files as the metadata tables read them, and the
//! `entries` and `all_entries` tables.
use vstd::prelude::*;

use super::history::{opt_int, opt_int_cell};
use super::{opt_views, partition_strings, partition_value_text};
use crate::json::{json_string_array, json_string_list};
use crate::render::{row_view, str_views, Cell, CellView, Tabular};
use crate::text::{owned, views};

verus! {

/// The status of a manifest entry.
#[derive(Debug, Clone, Copy, PartialEq, Eq, Structural)]
pub enum EntryStatus {
    Existing,
    Added,
    Deleted,
}

/// The number a manifest-entry status is stored as.
pub open spec fn entry_status_code(s: EntryStatus) -> i32 {
    match s {
        EntryStatus::Existing => 0,
        EntryStatus::Added => 1,
        EntryStatus::Deleted => 2,
    }
}

impl EntryStatus {
    /// The number this status is stored as.
    pub fn code(self) -> (n: i32)
        ensures
            n == entry_status_code(self),
    {
        match self {
            EntryStatus::Existing => 0,
            EntryStatus::Added => 1,
            EntryStatus::Deleted => 2,
        }
    }
}

/// What a data file holds.
#[derive(Debug, Clone, Copy, PartialEq, Eq, Structural)]
pub enum ContentKind {
    Data,
    PositionDeletes,
    EqualityDeletes,
}

/// The number a content kind is stored as.
pub open spec fn content_code(c: ContentKind) -> i32 {
    match c {
        ContentKind::Data => 0,
        ContentKind::PositionDeletes => 1,
        ContentKind::EqualityDeletes => 2,
    }
}

impl ContentKind {
    /// The number this kind is stored as.
    pub fn code(self) -> (n: i32)
        ensures
            n == content_code(self),
    {
        match self {
            ContentKind::Data => 0,
            ContentKind::PositionDeletes => 1,
            ContentKind::EqualityDeletes => 2,
        }
    }
}

/// The format of a data file.
#[derive(Debug, Clone, Copy, PartialEq, Eq, Structural)]
pub enum FileFormat {
    Avro,
    Orc,
    Parquet,
    Puffin,
}

/// The name a file format is shown with.
pub open spec fn file_format_name(f: FileFormat) -> Seq<char> {
    match f {
        FileFormat::Avro => "Avro"@,
        FileFormat::Orc => "Orc"@,
        FileFormat::Parquet => "Parquet"@,
        FileFormat::Puffin => "Puffin"@,
    }
}

impl FileFormat {
    /// The name this format is shown with.
    pub fn name(self) -> (s: String)
        ensures
            s@ == file_format_name(self),
    {
        match self {
            FileFormat::Avro => owned("Avro"),
            FileFormat::Orc => owned("Orc"),
            FileFormat::Parquet => owned("Parquet"),
            FileFormat::Puffin => owned("Puffin"),
        }
    }
}

/// A data or delete file as a manifest records it.
#[derive(Debug)]
pub struct DataFileMeta {
    pub content: ContentKind,
    pub file_path: String,
    pub file_format: FileFormat,
    pub record_count: u64,
    pub file_size_in_bytes: u64,
    /// The partition values, each as its rendering, or absent when null.
    pub partition: Vec<Option<String>>,
    /// Per-column statistics, keyed by field id.
    pub column_sizes: Vec<(i32, u64)>,
    pub value_counts: Vec<(i32, u64)>,
    pub null_value_counts: Vec<(i32, u64)>,
    pub nan_value_counts: Vec<(i32, u64)>,
    /// Per-column bounds, each as its rendering, keyed by field id.
    pub lower_bounds: Vec<(i32, String)>,
    pub upper_bounds: Vec<(i32, String)>,
    pub sort_order_id: Option<i32>,
}

/// One entry of a manifest.
#[derive(Debug)]
pub struct ManifestEntryMeta {
    pub status: EntryStatus,
    pub snapshot_id: Option<i64>,
    pub sequence_number: Option<i64>,
    /// The sequence number of the snapshot that first added the file.
    pub file_sequence_number: Option<i64>,
    pub data_file: DataFileMeta,
}

/// An entry is alive when it was added or exists (not deleted).
pub open spec fn is_alive(e: ManifestEntryMeta) -> bool {
    e.status is Added || e.status is Existing
}

/// The partition values of a data file as texts.
pub open spec fn partition_texts(df: DataFileMeta) -> Seq<Seq<char>> {
    opt_views(df.partition@).map_values(|v: Option<Seq<char>>| partition_value_text(v))
}

/// The partition column of a row: absent for an unpartitioned file.
pub open spec fn partition_field_of(r: Option<Vec<String>>, df: DataFileMeta) -> bool {
    match r {
        None => partition_texts(df).len() == 0,
        Some(v) => partition_texts(df).len() > 0 && views(v@) == partition_texts(df),
    }
}

/// The partition values of a data file, or nothing for an unpartitioned file.
pub fn partition_field(df: &DataFileMeta) -> (r: Option<Vec<String>>)
    ensures
        partition_field_of(r, *df),
{
    let v = partition_strings(&df.partition);
    if v.len() == 0 {
        None
    } else {
        Some(v)
    }
}

/// The cell of a partition column: the values as a JSON array, or empty.
pub open spec fn partition_cell_view(p: Option<Vec<String>>) -> CellView {
    match p {
        None => CellView::Null,
        Some(v) => CellView::Str(json_string_array(views(v@))),
    }
}

/// The cell of a partition column.
pub fn partition_cell(p: &Option<Vec<String>>) -> (c: Cell)
    ensures
        c@ == partition_cell_view(*p),
{
    match p {
        None => Cell::Null,
        Some(v) => Cell::Str(json_string_list(v.as_slice())),
    }
}

/// One row of the `entries` tables.
#[derive(Debug)]
pub struct EntryRow {
    pub status: i32,
    pub snapshot_id: Option<i64>,
    pub sequence_number: Option<i64>,
    pub file_sequence_number: Option<i64>,
    pub content: i32,
    pub file_path: String,
    pub file_format: String,
    pub record_count: u64,
    pub file_size_in_bytes: u64,
    pub partition: Option<Vec<String>>,
}

impl Tabular for EntryRow {
    open spec fn spec_headers(verbose: bool) -> Seq<Seq<char>> {
        if verbose {
            seq![
                "status"@,
                "snapshot_id"@,
                "sequence_number"@,
                "file_sequence_number"@,
                "content"@,
                "file_path"@,
                "file_format"@,
                "record_count"@,
                "file_size_in_bytes"@,
                "partition"@,
            ]
        } else {
            seq![
                "status"@,
                "snapshot_id"@,
                "content"@,
                "file_path"@,
                "record_count"@,
                "file_size_in_bytes"@,
            ]
        }
    }

    open spec fn spec_row(&self, verbose: bool) -> Seq<CellView> {
        if verbose {
            seq![
                CellView::Int(self.status as i64),
                opt_int_cell(self.snapshot_id),
                opt_int_cell(self.sequence_number),
                opt_int_cell(self.file_sequence_number),
                CellView::Int(self.content as i64),
                CellView::Str(self.file_path@),
                CellView::Str(self.file_format@),
                CellView::UInt(self.record_count),
                CellView::UInt(self.file_size_in_bytes),
                partition_cell_view(self.partition),
            ]
        } else {
            seq![
                CellView::Int(self.status as i64),
                opt_int_cell(self.snapshot_id),
                CellView::Int(self.content as i64),
                CellView::Str(self.file_path@),
                CellView::UInt(self.record_count),
                CellView::UInt(self.file_size_in_bytes),
            ]
        }
    }

    proof fn lemma_row_width(&self, verbose: bool) {
    }

    open spec fn compact_columns() -> Seq<int> {
        seq![0int, 1, 4, 5, 7, 8]
    }

    proof fn lemma_verbose_shows_compact_columns(&self) {
    }

    fn headers(verbose: bool) -> (h: Vec<&'static str>) {
        let h = if verbose {
            vec![
                "status",
                "snapshot_id",
                "sequence_number",
                "file_sequence_number",
                "content",
                "file_path",
                "file_format",
                "record_count",
                "file_size_in_bytes",
                "partition",
            ]
        } else {
            vec!["status", "snapshot_id", "content", "file_path", "record_count", "file_size_in_bytes"]
        };
        assert(str_views(h@) =~= Self::spec_headers(verbose));
        h
    }

    fn row(&self, verbose: bool) -> (r: Vec<Cell>) {
        let r = if verbose {
            vec![
                Cell::Int(self.status as i64),
                opt_int(self.snapshot_id),
                opt_int(self.sequence_number),
                opt_int(self.file_sequence_number),
                Cell::Int(self.content as i64),
                Cell::Str(self.file_path.clone()),
                Cell::Str(self.file_format.clone()),
                Cell::UInt(self.record_count),
                Cell::UInt(self.file_size_in_bytes),
                partition_cell(&self.partition),
            ]
        } else {
            vec![
                Cell::Int(self.status as i64),
                opt_int(self.snapshot_id),
                Cell::Int(self.content as i64),
                Cell::Str(self.file_path.clone()),
                Cell::UInt(self.record_count),
                Cell::UInt(self.file_size_in_bytes),
            ]
        };
        assert(row_view(r@) =~= self.spec_row(verbose));
        r
    }
}

/// The row of one manifest entry.
pub open spec fn entry_row_of(r: EntryRow, e: ManifestEntryMeta) -> bool {
    &&& r.status == entry_status_code(e.status)
    &&& r.snapshot_id == e.snapshot_id
    &&& r.sequence_number == e.sequence_number
    &&& r.file_sequence_number == e.file_sequence_number
    &&& r.content == content_code(e.data_file.content)
    &&& r.file_path@ == e.data_file.file_path@
    &&& r.file_format@ == file_format_name(e.data_file.file_format)
    &&& r.record_count == e.data_file.record_count
    &&& r.file_size_in_bytes == e.data_file.file_size_in_bytes
    &&& partition_field_of(r.partition, e.data_file)
}

/// The row of one manifest entry.
pub fn from_entry(e: &ManifestEntryMeta) -> (r: EntryRow)
    ensures
        entry_row_of(r, *e),
{
    let df = &e.data_file;
    EntryRow {
        status: e.status.code(),
        snapshot_id: e.snapshot_id,
        sequence_number: e.sequence_number,
        file_sequence_number: e.file_sequence_number,
        content: df.content.code(),
        file_path: df.file_path.clone(),
        file_format: df.file_format.name(),
        record_count: df.record_count,
        file_size_in_bytes: df.file_size_in_bytes,
        partition: partition_field(df),
    }
}

/// The entries of several manifests (or snapshots), one after the other.
pub open spec fn concat_entries(lists: Seq<Vec<ManifestEntryMeta>>) -> Seq<ManifestEntryMeta>
    decreases lists.len(),
{
    if lists.len() == 0 {
        Seq::empty()
    } else {
        concat_entries(lists.drop_last()) + lists.last()@
    }
}

/// Appends the rows of `entries` to `rows`.
fn push_entry_rows(rows: &mut Vec<EntryRow>, entries: &Vec<ManifestEntryMeta>)
    ensures
        final(rows)@.len() == old(rows)@.len() + entries@.len(),
        forall|i: int| 0 <= i < old(rows)@.len() ==> final(rows)@[i] == old(rows)@[i],
        forall|i: int|
            0 <= i < entries@.len() ==> entry_row_of(
                #[trigger] final(rows)@[old(rows)@.len() + i],
                entries@[i],
            ),
{
    let ghost start = rows@.len();
    let mut i: usize = 0;
    while i < entries.len()
        invariant
            i <= entries@.len(),
            rows@.len() == start + i,
            start == old(rows)@.len(),
            forall|j: int| 0 <= j < start ==> rows@[j] == old(rows)@[j],
            forall|j: int| 0 <= j < i ==> entry_row_of(#[trigger] rows@[start + j], entries@[j]),
        decreases entries@.len() - i,
    {
        rows.push(from_entry(&entries[i]));
        proof {
            assert forall|j: int| 0 <= j < i + 1 implies entry_row_of(
                #[trigger] rows@[start + j],
                entries@[j],
            ) by {}
        }
        i += 1;
    }
}

/// The `entries` table: one row per entry of the snapshot's manifests, deleted
/// entries included.
pub fn current(entries: &Vec<ManifestEntryMeta>) -> (rows: Vec<EntryRow>)
    ensures
        rows@.len() == entries@.len(),
        forall|i: int| 0 <= i < rows@.len() ==> entry_row_of(#[trigger] rows@[i], entries@[i]),
{
    let mut rows: Vec<EntryRow> = Vec::new();
    push_entry_rows(&mut rows, entries);
    proof {
        assert forall|i: int| 0 <= i < rows@.len() implies entry_row_of(#[trigger] rows@[i], entries@[i]) by {
            assert(rows@[0 + i] == rows@[i]);
        }
    }
    rows
}

/// The `all_entries` table: the entries of every snapshot, one snapshot after the
/// other.
pub fn all(lists: &Vec<Vec<ManifestEntryMeta>>) -> (rows: Vec<EntryRow>)
    ensures
        rows@.len() == concat_entries(lists@).len(),
        forall|i: int|
            0 <= i < rows@.len() ==> entry_row_of(#[trigger] rows@[i], concat_entries(lists@)[i]),
{
    let mut rows: Vec<EntryRow> = Vec::new();
    let mut a: usize = 0;
    while a < lists.len()
        invariant
            a <= lists@.len(),
            rows@.len() == concat_entries(lists@.take(a as int)).len(),
            forall|i: int|
                0 <= i < rows@.len() ==> entry_row_of(
                    #[trigger] rows@[i],
                    concat_entries(lists@.take(a as int))[i],
                ),
        decreases lists@.len() - a,
    {
        let ghost before = rows@;
        let ghost prev = concat_entries(lists@.take(a as int));
        push_entry_rows(&mut rows, &lists[a]);
        proof {
            let t = lists@.take(a + 1);
            assert(t.drop_last() =~= lists@.take(a as int));
            assert(t.last() == lists@[a as int]);
            let now = concat_entries(t);
            assert(now == prev + lists@[a as int]@);
            assert forall|i: int| 0 <= i < rows@.len() implies entry_row_of(#[trigger] rows@[i], now[i]) by {
                if i < before.len() {
                    assert(rows@[i] == before[i]);
                } else {
                    let j = i - before.len();
                    assert(rows@[before.len() + j] == rows@[i]);
                    assert(now[i] == lists@[a as int]@[j]);
                }
            }
        }
        a += 1;
    }
    assert(lists@.take(a as int) =~= lists@);
    rows
}

/// The cell that shows the field named `h` of a row.
pub open spec fn entry_row_cell(r: EntryRow, h: Seq<char>) -> CellView {
    if h == "status"@ {
        CellView::Int(r.status as i64)
    } else if h == "snapshot_id"@ {
        opt_int_cell(r.snapshot_id)
    } else if h == "sequence_number"@ {
        opt_int_cell(r.sequence_number)
    } else if h == "file_sequence_number"@ {
        opt_int_cell(r.file_sequence_number)
    } else if h == "content"@ {
        CellView::Int(r.content as i64)
    } else if h == "file_path"@ {
        CellView::Str(r.file_path@)
    } else if h == "file_format"@ {
        CellView::Str(r.file_format@)
    } else if h == "record_count"@ {
        CellView::UInt(r.record_count)
    } else if h == "file_size_in_bytes"@ {
        CellView::UInt(r.file_size_in_bytes)
    } else if h == "partition"@ {
        partition_cell_view(r.partition)
    } else {
        CellView::Null
    }
}

/// Every cell of a row, in either layout, shows the field that its column's header
/// names.
pub proof fn lemma_entry_row_cells_under_headers(r: EntryRow, verbose: bool)
    ensures
        r.spec_row(verbose).len() == EntryRow::spec_headers(verbose).len(),
        forall|j: int|
            0 <= j < r.spec_row(verbose).len() ==> #[trigger] r.spec_row(verbose)[j] == entry_row_cell(
                r,
                EntryRow::spec_headers(verbose)[j],
            ),
{
    reveal_strlit("content");
    reveal_strlit("file_format");
    reveal_strlit("file_path");
    reveal_strlit("file_sequence_number");
    reveal_strlit("file_size_in_bytes");
    reveal_strlit("partition");
    reveal_strlit("record_count");
    reveal_strlit("sequence_number");
    reveal_strlit("snapshot_id");
    reveal_strlit("status");
    let hs = EntryRow::spec_headers(true);
    assert forall|i: int, j: int| 0 <= i < j < hs.len() implies #[trigger] hs[i] != #[trigger] hs[j] by {
        if hs[i] == hs[j] {
            assert(hs[i].len() == hs[j].len());
            assert(hs[i][0] == hs[j][0]);
            assert(hs[i][hs[i].len() - 1] == hs[j][hs[j].len() - 1]);
        }
    }
}

} // verus!
