//! The `files`, `data_files`, `delete_files`, `all_data_files` and
//! `all_delete_files` metadata tables.
use vstd::prelude::*;

use super::entries::{
    content_code, file_format_name, is_alive, partition_cell, partition_cell_view, partition_field,
    partition_field_of, ContentKind, DataFileMeta, ManifestEntryMeta,
};
use super::refs::{opt_i32, opt_i32_cell};
use crate::json::{json_object, json_object_text, json_quote, json_string_text};
use crate::props::text_map;
use crate::render::{all_columns, row_view, str_views, Cell, CellView, Tabular};
use crate::sorted::SortedMap;
use crate::text::{decimal, i64_text, int_text, u64_text};

verus! {

/// One row of the file tables.
#[derive(Debug)]
pub struct FileRow {
    pub content: i32,
    pub file_path: String,
    pub file_format: String,
    pub partition: Option<Vec<String>>,
    pub record_count: u64,
    pub file_size_in_bytes: u64,
    pub column_sizes: Option<SortedMap<u64>>,
    pub value_counts: Option<SortedMap<u64>>,
    pub null_value_counts: Option<SortedMap<u64>>,
    pub nan_value_counts: Option<SortedMap<u64>>,
    pub lower_bounds: Option<SortedMap<String>>,
    pub upper_bounds: Option<SortedMap<String>>,
    pub sort_order_id: Option<i32>,
}

/// Per-field values keyed by the field id's decimal text; a later pair for the same
/// id replaces an earlier one.
pub open spec fn keyed_map<V>(m: Seq<(i32, V)>) -> Map<Seq<char>, V>
    decreases m.len(),
{
    if m.len() == 0 {
        Map::empty()
    } else {
        keyed_map(m.drop_last()).insert(int_text(m.last().0 as int), m.last().1)
    }
}

/// Per-field texts keyed by the field id's decimal text.
pub open spec fn keyed_text_map(m: Seq<(i32, String)>) -> Map<Seq<char>, Seq<char>> {
    keyed_map(m.map_values(|p: (i32, String)| (p.0, p.1@)))
}

/// A statistics column of a row: absent for no statistics, else keyed by field id.
pub open spec fn u64_map_of(r: Option<SortedMap<u64>>, m: Seq<(i32, u64)>) -> bool {
    match r {
        None => m.len() == 0,
        Some(s) => m.len() > 0 && s.map() == keyed_map(m),
    }
}

/// A bounds column of a row: absent for no bounds, else keyed by field id.
pub open spec fn text_map_of(r: Option<SortedMap<String>>, m: Seq<(i32, String)>) -> bool {
    match r {
        None => m.len() == 0,
        Some(s) => m.len() > 0 && text_map(s.map()) == keyed_text_map(m),
    }
}

/// Per-field counts keyed by field id, or nothing when there are none.
pub fn u64_map(m: &Vec<(i32, u64)>) -> (r: Option<SortedMap<u64>>)
    ensures
        u64_map_of(r, m@),
{
    if m.len() == 0 {
        return None;
    }
    let mut s: SortedMap<u64> = SortedMap::new();
    let mut i: usize = 0;
    while i < m.len()
        invariant
            i <= m@.len(),
            s.map() == keyed_map(m@.take(i as int)),
        decreases m@.len() - i,
    {
        let k = i64_text(m[i].0 as i64);
        s.insert(k, m[i].1);
        proof {
            let t = m@.take(i + 1);
            assert(t.drop_last() =~= m@.take(i as int));
            assert(t.last() == m@[i as int]);
        }
        i += 1;
    }
    assert(m@.take(i as int) =~= m@);
    Some(s)
}

/// Per-field texts keyed by field id, or nothing when there are none.
pub fn text_keyed_map(m: &Vec<(i32, String)>) -> (r: Option<SortedMap<String>>)
    ensures
        text_map_of(r, m@),
{
    if m.len() == 0 {
        return None;
    }
    let ghost tv = m@.map_values(|p: (i32, String)| (p.0, p.1@));
    let mut s: SortedMap<String> = SortedMap::new();
    let mut i: usize = 0;
    proof {
        assert(text_map(s.map()) =~= keyed_map(tv.take(0)));
    }
    while i < m.len()
        invariant
            i <= m@.len(),
            tv == m@.map_values(|p: (i32, String)| (p.0, p.1@)),
            text_map(s.map()) == keyed_map(tv.take(i as int)),
        decreases m@.len() - i,
    {
        let k = i64_text(m[i].0 as i64);
        let v = m[i].1.clone();
        let ghost before = s.map();
        s.insert(k, v);
        proof {
            let t = tv.take(i + 1);
            assert(t.drop_last() =~= tv.take(i as int));
            assert(t.last() == tv[i as int]);
            assert(text_map(s.map()) =~= text_map(before).insert(k@, v@));
        }
        i += 1;
    }
    assert(tv.take(i as int) =~= tv);
    Some(s)
}

/// The members of a JSON object of counts: each count in decimal.
pub open spec fn count_members(e: Seq<(String, u64)>) -> Seq<(Seq<char>, Seq<char>)> {
    e.map_values(|p: (String, u64)| (p.0@, decimal(p.1 as nat)))
}

/// The members of a JSON object of texts: each text a JSON string.
pub open spec fn text_members(e: Seq<(String, String)>) -> Seq<(Seq<char>, Seq<char>)> {
    e.map_values(|p: (String, String)| (p.0@, json_string_text(p.1@)))
}

/// The cell of a statistics column: its entries as a JSON object, or empty.
pub open spec fn count_cell_view(m: Option<SortedMap<u64>>) -> CellView {
    match m {
        None => CellView::Null,
        Some(s) => CellView::Str(json_object_text(count_members(s.entry_seq()))),
    }
}

/// The cell of a bounds column: its entries as a JSON object, or empty.
pub open spec fn text_cell_view(m: Option<SortedMap<String>>) -> CellView {
    match m {
        None => CellView::Null,
        Some(s) => CellView::Str(json_object_text(text_members(s.entry_seq()))),
    }
}

/// The cell of a statistics column.
pub fn count_cell(m: &Option<SortedMap<u64>>) -> (c: Cell)
    ensures
        c@ == count_cell_view(*m),
{
    match m {
        None => Cell::Null,
        Some(s) => {
            let e = s.entries();
            let ghost want = count_members(e@);
            let mut members: Vec<(String, String)> = Vec::new();
            let mut i: usize = 0;
            while i < e.len()
                invariant
                    i <= e@.len(),
                    want == count_members(e@),
                    crate::json::pair_views(members@) == want.take(i as int),
                decreases e@.len() - i,
            {
                let ghost before = members@;
                let k = e[i].0.clone();
                let v = u64_text(e[i].1);
                assert(want[i as int] == (k@, v@));
                members.push((k, v));
                assert(crate::json::pair_views(members@) =~= crate::json::pair_views(before).push(
                    want[i as int],
                ));
                i += 1;
                assert(crate::json::pair_views(members@) =~= want.take(i as int));
            }
            assert(want.take(i as int) =~= want);
            Cell::Str(json_object(members.as_slice()))
        },
    }
}

/// The cell of a bounds column.
pub fn text_cell(m: &Option<SortedMap<String>>) -> (c: Cell)
    ensures
        c@ == text_cell_view(*m),
{
    match m {
        None => Cell::Null,
        Some(s) => {
            let e = s.entries();
            let ghost want = text_members(e@);
            let mut members: Vec<(String, String)> = Vec::new();
            let mut i: usize = 0;
            while i < e.len()
                invariant
                    i <= e@.len(),
                    want == text_members(e@),
                    crate::json::pair_views(members@) == want.take(i as int),
                decreases e@.len() - i,
            {
                let ghost before = members@;
                let k = e[i].0.clone();
                let v = json_quote(e[i].1.as_str());
                assert(want[i as int] == (k@, v@));
                members.push((k, v));
                assert(crate::json::pair_views(members@) =~= crate::json::pair_views(before).push(
                    want[i as int],
                ));
                i += 1;
                assert(crate::json::pair_views(members@) =~= want.take(i as int));
            }
            assert(want.take(i as int) =~= want);
            Cell::Str(json_object(members.as_slice()))
        },
    }
}

impl Tabular for FileRow {
    open spec fn spec_headers(verbose: bool) -> Seq<Seq<char>> {
        seq![
            "content"@,
            "file_path"@,
            "file_format"@,
            "partition"@,
            "record_count"@,
            "file_size_in_bytes"@,
            "column_sizes"@,
            "value_counts"@,
            "null_value_counts"@,
            "nan_value_counts"@,
            "lower_bounds"@,
            "upper_bounds"@,
            "sort_order_id"@,
        ]
    }

    open spec fn spec_row(&self, verbose: bool) -> Seq<CellView> {
        seq![
            CellView::Int(self.content as i64),
            CellView::Str(self.file_path@),
            CellView::Str(self.file_format@),
            partition_cell_view(self.partition),
            CellView::UInt(self.record_count),
            CellView::UInt(self.file_size_in_bytes),
            count_cell_view(self.column_sizes),
            count_cell_view(self.value_counts),
            count_cell_view(self.null_value_counts),
            count_cell_view(self.nan_value_counts),
            text_cell_view(self.lower_bounds),
            text_cell_view(self.upper_bounds),
            opt_i32_cell(self.sort_order_id),
        ]
    }

    proof fn lemma_row_width(&self, verbose: bool) {
    }

    open spec fn compact_columns() -> Seq<int> {
        all_columns(13)
    }

    proof fn lemma_verbose_shows_compact_columns(&self) {
    }

    fn headers(verbose: bool) -> (h: Vec<&'static str>) {
        let h = vec![
            "content",
            "file_path",
            "file_format",
            "partition",
            "record_count",
            "file_size_in_bytes",
            "column_sizes",
            "value_counts",
            "null_value_counts",
            "nan_value_counts",
            "lower_bounds",
            "upper_bounds",
            "sort_order_id",
        ];
        assert(str_views(h@) =~= Self::spec_headers(verbose));
        h
    }

    fn row(&self, verbose: bool) -> (r: Vec<Cell>) {
        let r = vec![
            Cell::Int(self.content as i64),
            Cell::Str(self.file_path.clone()),
            Cell::Str(self.file_format.clone()),
            partition_cell(&self.partition),
            Cell::UInt(self.record_count),
            Cell::UInt(self.file_size_in_bytes),
            count_cell(&self.column_sizes),
            count_cell(&self.value_counts),
            count_cell(&self.null_value_counts),
            count_cell(&self.nan_value_counts),
            text_cell(&self.lower_bounds),
            text_cell(&self.upper_bounds),
            opt_i32(self.sort_order_id),
        ];
        assert(row_view(r@) =~= self.spec_row(verbose));
        r
    }
}

/// The row of one data or delete file.
pub open spec fn file_row_of(r: FileRow, df: DataFileMeta) -> bool {
    &&& r.content == content_code(df.content)
    &&& r.file_path@ == df.file_path@
    &&& r.file_format@ == file_format_name(df.file_format)
    &&& partition_field_of(r.partition, df)
    &&& r.record_count == df.record_count
    &&& r.file_size_in_bytes == df.file_size_in_bytes
    &&& u64_map_of(r.column_sizes, df.column_sizes@)
    &&& u64_map_of(r.value_counts, df.value_counts@)
    &&& u64_map_of(r.null_value_counts, df.null_value_counts@)
    &&& u64_map_of(r.nan_value_counts, df.nan_value_counts@)
    &&& text_map_of(r.lower_bounds, df.lower_bounds@)
    &&& text_map_of(r.upper_bounds, df.upper_bounds@)
    &&& r.sort_order_id == df.sort_order_id
}

/// The row of one data or delete file.
pub fn from_data_file(df: &DataFileMeta) -> (r: FileRow)
    ensures
        file_row_of(r, *df),
{
    FileRow {
        content: df.content.code(),
        file_path: df.file_path.clone(),
        file_format: df.file_format.name(),
        partition: partition_field(df),
        record_count: df.record_count,
        file_size_in_bytes: df.file_size_in_bytes,
        column_sizes: u64_map(&df.column_sizes),
        value_counts: u64_map(&df.value_counts),
        null_value_counts: u64_map(&df.null_value_counts),
        nan_value_counts: u64_map(&df.nan_value_counts),
        lower_bounds: text_keyed_map(&df.lower_bounds),
        upper_bounds: text_keyed_map(&df.upper_bounds),
        sort_order_id: df.sort_order_id,
    }
}

/// Which files a file table shows.
#[derive(Debug, Clone, Copy, PartialEq, Eq, Structural)]
pub enum FileSelection {
    /// Every live file.
    Alive,
    /// Live data files.
    Data,
    /// Live delete files.
    Deletes,
}

/// Whether an entry's file belongs in a table.
pub open spec fn selected(e: ManifestEntryMeta, sel: FileSelection) -> bool {
    is_alive(e) && match sel {
        FileSelection::Alive => true,
        FileSelection::Data => e.data_file.content is Data,
        FileSelection::Deletes => !(e.data_file.content is Data),
    }
}

/// The entries whose files belong in a table, in order.
pub open spec fn select_entries(s: Seq<ManifestEntryMeta>, sel: FileSelection) -> Seq<ManifestEntryMeta>
    decreases s.len(),
{
    if s.len() == 0 {
        Seq::empty()
    } else if selected(s.last(), sel) {
        select_entries(s.drop_last(), sel).push(s.last())
    } else {
        select_entries(s.drop_last(), sel)
    }
}

/// The selected entries of several snapshots, one snapshot after the other.
pub open spec fn select_all(lists: Seq<Vec<ManifestEntryMeta>>, sel: FileSelection) -> Seq<ManifestEntryMeta>
    decreases lists.len(),
{
    if lists.len() == 0 {
        Seq::empty()
    } else {
        select_all(lists.drop_last(), sel) + select_entries(lists.last()@, sel)
    }
}

/// Whether an entry's file belongs in a table.
fn keeps(e: &ManifestEntryMeta, sel: FileSelection) -> (b: bool)
    ensures
        b == selected(*e, sel),
{
    let alive = match e.status {
        super::entries::EntryStatus::Deleted => false,
        _ => true,
    };
    let data = match e.data_file.content {
        ContentKind::Data => true,
        _ => false,
    };
    alive && match sel {
        FileSelection::Alive => true,
        FileSelection::Data => data,
        FileSelection::Deletes => !data,
    }
}

/// Appends the rows of the selected entries.
fn push_file_rows(rows: &mut Vec<FileRow>, entries: &Vec<ManifestEntryMeta>, sel: FileSelection)
    ensures
        final(rows)@.len() == old(rows)@.len() + select_entries(entries@, sel).len(),
        forall|i: int| 0 <= i < old(rows)@.len() ==> final(rows)@[i] == old(rows)@[i],
        forall|i: int|
            0 <= i < select_entries(entries@, sel).len() ==> file_row_of(
                #[trigger] final(rows)@[old(rows)@.len() + i],
                select_entries(entries@, sel)[i].data_file,
            ),
{
    let ghost start = rows@.len();
    let mut i: usize = 0;
    while i < entries.len()
        invariant
            i <= entries@.len(),
            start == old(rows)@.len(),
            rows@.len() == start + select_entries(entries@.take(i as int), sel).len(),
            forall|j: int| 0 <= j < start ==> rows@[j] == old(rows)@[j],
            forall|j: int|
                0 <= j < select_entries(entries@.take(i as int), sel).len() ==> file_row_of(
                    #[trigger] rows@[start + j],
                    select_entries(entries@.take(i as int), sel)[j].data_file,
                ),
        decreases entries@.len() - i,
    {
        let ghost prev = select_entries(entries@.take(i as int), sel);
        proof {
            let t = entries@.take(i + 1);
            assert(t.drop_last() =~= entries@.take(i as int));
            assert(t.last() == entries@[i as int]);
        }
        if keeps(&entries[i], sel) {
            rows.push(from_data_file(&entries[i].data_file));
            proof {
                let now = select_entries(entries@.take(i + 1), sel);
                assert(now == prev.push(entries@[i as int]));
                assert forall|j: int| 0 <= j < now.len() implies file_row_of(
                    #[trigger] rows@[start + j],
                    now[j].data_file,
                ) by {
                    if j < prev.len() {
                        assert(now[j] == prev[j]);
                    }
                }
            }
        }
        i += 1;
    }
    assert(entries@.take(i as int) =~= entries@);
}

/// The rows of the selected entries of one snapshot.
fn rows_of(entries: &Vec<ManifestEntryMeta>, sel: FileSelection) -> (rows: Vec<FileRow>)
    ensures
        rows@.len() == select_entries(entries@, sel).len(),
        forall|i: int|
            0 <= i < rows@.len() ==> file_row_of(#[trigger] rows@[i], select_entries(entries@, sel)[i].data_file),
{
    let mut rows: Vec<FileRow> = Vec::new();
    push_file_rows(&mut rows, entries, sel);
    proof {
        assert forall|i: int| 0 <= i < rows@.len() implies file_row_of(
            #[trigger] rows@[i],
            select_entries(entries@, sel)[i].data_file,
        ) by {
            assert(rows@[0 + i] == rows@[i]);
        }
    }
    rows
}

/// The rows of the selected entries of every snapshot.
fn rows_of_all(lists: &Vec<Vec<ManifestEntryMeta>>, sel: FileSelection) -> (rows: Vec<FileRow>)
    ensures
        rows@.len() == select_all(lists@, sel).len(),
        forall|i: int|
            0 <= i < rows@.len() ==> file_row_of(#[trigger] rows@[i], select_all(lists@, sel)[i].data_file),
{
    let mut rows: Vec<FileRow> = Vec::new();
    let mut a: usize = 0;
    while a < lists.len()
        invariant
            a <= lists@.len(),
            rows@.len() == select_all(lists@.take(a as int), sel).len(),
            forall|i: int|
                0 <= i < rows@.len() ==> file_row_of(
                    #[trigger] rows@[i],
                    select_all(lists@.take(a as int), sel)[i].data_file,
                ),
        decreases lists@.len() - a,
    {
        let ghost before = rows@;
        let ghost prev = select_all(lists@.take(a as int), sel);
        push_file_rows(&mut rows, &lists[a], sel);
        proof {
            let t = lists@.take(a + 1);
            assert(t.drop_last() =~= lists@.take(a as int));
            assert(t.last() == lists@[a as int]);
            let now = select_all(t, sel);
            let add = select_entries(lists@[a as int]@, sel);
            assert(now == prev + add);
            assert forall|i: int| 0 <= i < rows@.len() implies file_row_of(#[trigger] rows@[i], now[i].data_file) by {
                if i < before.len() {
                    assert(rows@[i] == before[i]);
                } else {
                    let j = i - before.len();
                    assert(rows@[before.len() + j] == rows@[i]);
                    assert(now[i] == add[j]);
                }
            }
        }
        a += 1;
    }
    assert(lists@.take(a as int) =~= lists@);
    rows
}

/// The `files` table: every live file of the snapshot.
pub fn alive(entries: &Vec<ManifestEntryMeta>) -> (rows: Vec<FileRow>)
    ensures
        rows@.len() == select_entries(entries@, FileSelection::Alive).len(),
        forall|i: int|
            0 <= i < rows@.len() ==> file_row_of(
                #[trigger] rows@[i],
                select_entries(entries@, FileSelection::Alive)[i].data_file,
            ),
{
    rows_of(entries, FileSelection::Alive)
}

/// The `data_files` table: the live data files of the snapshot.
pub fn data(entries: &Vec<ManifestEntryMeta>) -> (rows: Vec<FileRow>)
    ensures
        rows@.len() == select_entries(entries@, FileSelection::Data).len(),
        forall|i: int|
            0 <= i < rows@.len() ==> file_row_of(
                #[trigger] rows@[i],
                select_entries(entries@, FileSelection::Data)[i].data_file,
            ),
{
    rows_of(entries, FileSelection::Data)
}

/// The `delete_files` table: the live delete files of the snapshot.
pub fn delete(entries: &Vec<ManifestEntryMeta>) -> (rows: Vec<FileRow>)
    ensures
        rows@.len() == select_entries(entries@, FileSelection::Deletes).len(),
        forall|i: int|
            0 <= i < rows@.len() ==> file_row_of(
                #[trigger] rows@[i],
                select_entries(entries@, FileSelection::Deletes)[i].data_file,
            ),
{
    rows_of(entries, FileSelection::Deletes)
}

/// The `all_data_files` table: the live data files of every snapshot.
pub fn all_data(lists: &Vec<Vec<ManifestEntryMeta>>) -> (rows: Vec<FileRow>)
    ensures
        rows@.len() == select_all(lists@, FileSelection::Data).len(),
        forall|i: int|
            0 <= i < rows@.len() ==> file_row_of(
                #[trigger] rows@[i],
                select_all(lists@, FileSelection::Data)[i].data_file,
            ),
{
    rows_of_all(lists, FileSelection::Data)
}

/// The `all_delete_files` table: the live delete files of every snapshot.
pub fn all_delete(lists: &Vec<Vec<ManifestEntryMeta>>) -> (rows: Vec<FileRow>)
    ensures
        rows@.len() == select_all(lists@, FileSelection::Deletes).len(),
        forall|i: int|
            0 <= i < rows@.len() ==> file_row_of(
                #[trigger] rows@[i],
                select_all(lists@, FileSelection::Deletes)[i].data_file,
            ),
{
    rows_of_all(lists, FileSelection::Deletes)
}

/// The cell that shows the field named `h` of a row.
pub open spec fn file_row_cell(r: FileRow, h: Seq<char>) -> CellView {
    if h == "content"@ {
        CellView::Int(r.content as i64)
    } else if h == "file_path"@ {
        CellView::Str(r.file_path@)
    } else if h == "file_format"@ {
        CellView::Str(r.file_format@)
    } else if h == "partition"@ {
        partition_cell_view(r.partition)
    } else if h == "record_count"@ {
        CellView::UInt(r.record_count)
    } else if h == "file_size_in_bytes"@ {
        CellView::UInt(r.file_size_in_bytes)
    } else if h == "column_sizes"@ {
        count_cell_view(r.column_sizes)
    } else if h == "value_counts"@ {
        count_cell_view(r.value_counts)
    } else if h == "null_value_counts"@ {
        count_cell_view(r.null_value_counts)
    } else if h == "nan_value_counts"@ {
        count_cell_view(r.nan_value_counts)
    } else if h == "lower_bounds"@ {
        text_cell_view(r.lower_bounds)
    } else if h == "upper_bounds"@ {
        text_cell_view(r.upper_bounds)
    } else if h == "sort_order_id"@ {
        opt_i32_cell(r.sort_order_id)
    } else {
        CellView::Null
    }
}

/// Every cell of a row, in either layout, shows the field that its column's header
/// names.
pub proof fn lemma_file_row_cells_under_headers(r: FileRow, verbose: bool)
    ensures
        r.spec_row(verbose).len() == FileRow::spec_headers(verbose).len(),
        forall|j: int|
            0 <= j < r.spec_row(verbose).len() ==> #[trigger] r.spec_row(verbose)[j] == file_row_cell(
                r,
                FileRow::spec_headers(verbose)[j],
            ),
{
    reveal_strlit("column_sizes");
    reveal_strlit("content");
    reveal_strlit("file_format");
    reveal_strlit("file_path");
    reveal_strlit("file_size_in_bytes");
    reveal_strlit("lower_bounds");
    reveal_strlit("nan_value_counts");
    reveal_strlit("null_value_counts");
    reveal_strlit("partition");
    reveal_strlit("record_count");
    reveal_strlit("sort_order_id");
    reveal_strlit("upper_bounds");
    reveal_strlit("value_counts");
    let hs = FileRow::spec_headers(true);
    assert forall|i: int, j: int| 0 <= i < j < hs.len() implies #[trigger] hs[i] != #[trigger] hs[j] by {
        if hs[i] == hs[j] {
            assert(hs[i].len() == hs[j].len());
            assert(hs[i][0] == hs[j][0]);
            assert(hs[i][hs[i].len() - 1] == hs[j][hs[j].len() - 1]);
        }
    }
}

} // verus!
