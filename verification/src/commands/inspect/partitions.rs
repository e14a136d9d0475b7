//! The `partitions` metadata table: per partition, the live data and delete files
//! and their record counts, sorted by partition.
use vstd::prelude::*;

use super::entries::{is_alive, ContentKind, DataFileMeta, EntryStatus, ManifestEntryMeta};
use crate::props::{distinct_keys, has_key_at, lemma_to_map_dom, lemma_to_map_value, to_map};
use crate::render::{row_view, str_views, Cell, CellView, Tabular};
use crate::sorted::{keys_ascending, SortedMap};
use crate::json::{json_opt_array, json_opt_list, opt_string_views};
use crate::text::text_lt;

verus! {

/// One row of the `partitions` table.
#[derive(Debug)]
pub struct PartitionRow {
    /// The partition tuple as a JSON array: each value's text, `null` where absent.
    pub partition: String,
    pub spec_id: i32,
    pub record_count: u64,
    pub file_count: u32,
    pub total_data_file_size_in_bytes: u64,
    pub position_delete_record_count: u64,
    pub position_delete_file_count: u32,
    pub equality_delete_record_count: u64,
    pub equality_delete_file_count: u32,
}

impl Tabular for PartitionRow {
    open spec fn spec_headers(verbose: bool) -> Seq<Seq<char>> {
        if verbose {
            seq![
                "partition"@,
                "spec_id"@,
                "record_count"@,
                "file_count"@,
                "total_data_file_size_in_bytes"@,
                "position_delete_record_count"@,
                "position_delete_file_count"@,
                "equality_delete_record_count"@,
                "equality_delete_file_count"@,
            ]
        } else {
            seq!["partition"@, "file_count"@, "record_count"@, "total_data_file_size_in_bytes"@]
        }
    }

    open spec fn spec_row(&self, verbose: bool) -> Seq<CellView> {
        if verbose {
            seq![
                CellView::Str(self.partition@),
                CellView::Int(self.spec_id as i64),
                CellView::UInt(self.record_count),
                CellView::UInt(self.file_count as u64),
                CellView::UInt(self.total_data_file_size_in_bytes),
                CellView::UInt(self.position_delete_record_count),
                CellView::UInt(self.position_delete_file_count as u64),
                CellView::UInt(self.equality_delete_record_count),
                CellView::UInt(self.equality_delete_file_count as u64),
            ]
        } else {
            seq![
                CellView::Str(self.partition@),
                CellView::UInt(self.file_count as u64),
                CellView::UInt(self.record_count),
                CellView::UInt(self.total_data_file_size_in_bytes),
            ]
        }
    }

    proof fn lemma_row_width(&self, verbose: bool) {
    }

    open spec fn compact_columns() -> Seq<int> {
        seq![0int, 3, 2, 4]
    }

    proof fn lemma_verbose_shows_compact_columns(&self) {
    }

    fn headers(verbose: bool) -> (h: Vec<&'static str>) {
        let h = if verbose {
            vec![
                "partition",
                "spec_id",
                "record_count",
                "file_count",
                "total_data_file_size_in_bytes",
                "position_delete_record_count",
                "position_delete_file_count",
                "equality_delete_record_count",
                "equality_delete_file_count",
            ]
        } else {
            vec!["partition", "file_count", "record_count", "total_data_file_size_in_bytes"]
        };
        assert(str_views(h@) =~= Self::spec_headers(verbose));
        h
    }

    fn row(&self, verbose: bool) -> (r: Vec<Cell>) {
        let r = if verbose {
            vec![
                Cell::Str(self.partition.clone()),
                Cell::Int(self.spec_id as i64),
                Cell::UInt(self.record_count),
                Cell::UInt(self.file_count as u64),
                Cell::UInt(self.total_data_file_size_in_bytes),
                Cell::UInt(self.position_delete_record_count),
                Cell::UInt(self.position_delete_file_count as u64),
                Cell::UInt(self.equality_delete_record_count),
                Cell::UInt(self.equality_delete_file_count as u64),
            ]
        } else {
            vec![
                Cell::Str(self.partition.clone()),
                Cell::UInt(self.file_count as u64),
                Cell::UInt(self.record_count),
                Cell::UInt(self.total_data_file_size_in_bytes),
            ]
        };
        assert(row_view(r@) =~= self.spec_row(verbose));
        r
    }
}

/// The key a file is grouped under: its partition tuple as a JSON array, each
/// value as a string of its text and an absent value as `null`.
pub open spec fn partition_key(df: DataFileMeta) -> Seq<char> {
    json_opt_array(opt_string_views(df.partition@))
}

/// The sums kept for one partition.
pub ghost struct PartitionTotals {
    pub record_count: int,
    pub file_count: int,
    pub data_size: int,
    pub position_delete_records: int,
    pub position_delete_files: int,
    pub equality_delete_records: int,
    pub equality_delete_files: int,
}

/// Nothing counted yet.
pub open spec fn no_totals() -> PartitionTotals {
    PartitionTotals {
        record_count: 0,
        file_count: 0,
        data_size: 0,
        position_delete_records: 0,
        position_delete_files: 0,
        equality_delete_records: 0,
        equality_delete_files: 0,
    }
}

/// The sums after counting one more file: a data file adds its records, one file and
/// its size; a delete file adds its records and one file to its kind.
pub open spec fn add_file(t: PartitionTotals, df: DataFileMeta) -> PartitionTotals {
    match df.content {
        ContentKind::Data => PartitionTotals {
            record_count: t.record_count + df.record_count,
            file_count: t.file_count + 1,
            data_size: t.data_size + df.file_size_in_bytes,
            ..t
        },
        ContentKind::PositionDeletes => PartitionTotals {
            position_delete_records: t.position_delete_records + df.record_count,
            position_delete_files: t.position_delete_files + 1,
            ..t
        },
        ContentKind::EqualityDeletes => PartitionTotals {
            equality_delete_records: t.equality_delete_records + df.record_count,
            equality_delete_files: t.equality_delete_files + 1,
            ..t
        },
    }
}

/// The sums over the live files of partition `key`.
pub open spec fn totals(s: Seq<ManifestEntryMeta>, key: Seq<char>) -> PartitionTotals
    decreases s.len(),
{
    if s.len() == 0 {
        no_totals()
    } else if is_alive(s.last()) && partition_key(s.last().data_file) == key {
        add_file(totals(s.drop_last(), key), s.last().data_file)
    } else {
        totals(s.drop_last(), key)
    }
}

/// Every sum fits the width of its column.
pub open spec fn totals_fit(t: PartitionTotals) -> bool {
    &&& t.record_count <= u64::MAX
    &&& t.file_count <= u32::MAX
    &&& t.data_size <= u64::MAX
    &&& t.position_delete_records <= u64::MAX
    &&& t.position_delete_files <= u32::MAX
    &&& t.equality_delete_records <= u64::MAX
    &&& t.equality_delete_files <= u32::MAX
}

/// Every sum of `a` is at most that of `b`.
pub open spec fn totals_le(a: PartitionTotals, b: PartitionTotals) -> bool {
    &&& a.record_count <= b.record_count
    &&& a.file_count <= b.file_count
    &&& a.data_size <= b.data_size
    &&& a.position_delete_records <= b.position_delete_records
    &&& a.position_delete_files <= b.position_delete_files
    &&& a.equality_delete_records <= b.equality_delete_records
    &&& a.equality_delete_files <= b.equality_delete_files
}

/// Some live file belongs to partition `key`.
pub open spec fn has_partition(s: Seq<ManifestEntryMeta>, key: Seq<char>) -> bool {
    exists|i: int| 0 <= i < s.len() && is_alive(s[i]) && partition_key(#[trigger] s[i].data_file) == key
}

/// A row shows partition `key` with the sums `t`.
pub open spec fn row_matches(r: PartitionRow, key: Seq<char>, t: PartitionTotals, spec_id: i32) -> bool {
    &&& r.partition@ == key
    &&& r.spec_id == spec_id
    &&& r.record_count == t.record_count
    &&& r.file_count == t.file_count
    &&& r.total_data_file_size_in_bytes == t.data_size
    &&& r.position_delete_record_count == t.position_delete_records
    &&& r.position_delete_file_count == t.position_delete_files
    &&& r.equality_delete_record_count == t.equality_delete_records
    &&& r.equality_delete_file_count == t.equality_delete_files
}

/// The sums over a prefix never exceed the sums over the whole.
proof fn lemma_totals_prefix(s: Seq<ManifestEntryMeta>, i: int, key: Seq<char>)
    requires
        0 <= i <= s.len(),
    ensures
        totals_le(totals(s.take(i), key), totals(s, key)),
    decreases s.len(),
{
    if i == s.len() {
        assert(s.take(i) =~= s);
    } else {
        lemma_totals_prefix(s.drop_last(), i, key);
        assert(s.drop_last().take(i) =~= s.take(i));
    }
}

/// Partition keys that have a row so far, with their rows.
spec fn acc_matches(m: Map<Seq<char>, PartitionRow>, s: Seq<ManifestEntryMeta>, spec_id: i32) -> bool {
    &&& forall|k: Seq<char>| m.contains_key(k) <==> has_partition(s, k)
    &&& forall|k: Seq<char>| #[trigger] m.contains_key(k) ==> row_matches(m[k], k, totals(s, k), spec_id)
}

/// Every partition's sums fit their columns.
pub open spec fn all_totals_fit(s: Seq<ManifestEntryMeta>) -> bool {
    forall|k: Seq<char>| totals_fit(#[trigger] totals(s, k))
}

/// The rows are the `partitions` table of `s`: one row per partition that has a live
/// file, in ascending partition order, each with the sums over its live files.
pub open spec fn is_partition_table(rows: Seq<PartitionRow>, s: Seq<ManifestEntryMeta>, spec_id: i32) -> bool {
    &&& forall|i: int, j: int|
        0 <= i < j < rows.len() ==> text_lt((#[trigger] rows[i]).partition@, (#[trigger] rows[j]).partition@)
    &&& forall|i: int|
        0 <= i < rows.len() ==> has_partition(s, (#[trigger] rows[i]).partition@) && row_matches(
            rows[i],
            rows[i].partition@,
            totals(s, rows[i].partition@),
            spec_id,
        )
    &&& forall|k: Seq<char>|
        has_partition(s, k) ==> exists|i: int| 0 <= i < rows.len() && (#[trigger] rows[i]).partition@ == k
}

/// The `partitions` table for the entries of one snapshot: one row per partition
/// that has a live file, in ascending partition order, with the sums over its live
/// files. Every sum must fit its column.
pub fn extract(entries: &Vec<ManifestEntryMeta>, spec_id: i32) -> (rows: Vec<PartitionRow>)
    requires
        all_totals_fit(entries@),
    ensures
        is_partition_table(rows@, entries@, spec_id),
{
    try_extract(entries, spec_id).unwrap()
}

/// The `partitions` table as `extract` computes it, or `None` exactly when the sums
/// of some partition do not fit their columns.
pub fn try_extract(entries: &Vec<ManifestEntryMeta>, spec_id: i32) -> (r: Option<Vec<PartitionRow>>)
    ensures
        r is None <==> !all_totals_fit(entries@),
        r matches Some(rows) ==> is_partition_table(rows@, entries@, spec_id),
{
    let mut acc: SortedMap<PartitionRow> = SortedMap::new();
    let mut i: usize = 0;
    proof {
        assert(entries@.take(0) =~= Seq::<ManifestEntryMeta>::empty());
    }
    while i < entries.len()
        invariant
            i <= entries@.len(),
            acc_matches(acc.map(), entries@.take(i as int), spec_id),
        decreases entries@.len() - i,
    {
        let ghost pre = entries@.take(i as int);
        let ghost post = entries@.take(i + 1);
        let e = &entries[i];
        proof {
            assert(post.drop_last() =~= pre);
            assert(post.last() == *e);
        }
        let alive = match e.status {
            EntryStatus::Deleted => false,
            _ => true,
        };
        if !alive {
            proof {
                assert forall|k: Seq<char>| has_partition(post, k) <==> has_partition(pre, k) by {
                    if has_partition(post, k) {
                        let j = choose|j: int| 0 <= j < post.len() && is_alive(post[j]) && partition_key(#[trigger] post[j].data_file) == k;
                        assert(j < pre.len());
                        assert(pre[j] == post[j]);
                    }
                    if has_partition(pre, k) {
                        let j = choose|j: int| 0 <= j < pre.len() && is_alive(pre[j]) && partition_key(#[trigger] pre[j].data_file) == k;
                        assert(pre[j] == post[j]);
                    }
                }
            }
        } else {
            let df = &e.data_file;
            let key = json_opt_list(&df.partition);
            assert(key@ == partition_key(*df));
            proof {
                lemma_totals_prefix(entries@, i + 1, key@);
                assert(entries@.take(i + 1) == post);
            }
            let ghost before = acc.map();
            let mut row = match acc.remove(key.as_str()) {
                Some(r) => r,
                None => PartitionRow {
                    partition: key.clone(),
                    spec_id,
                    record_count: 0,
                    file_count: 0,
                    total_data_file_size_in_bytes: 0,
                    position_delete_record_count: 0,
                    position_delete_file_count: 0,
                    equality_delete_record_count: 0,
                    equality_delete_file_count: 0,
                },
            };
            proof {
                if !before.contains_key(key@) {
                    assert(!has_partition(pre, key@));
                    assert(totals(pre, key@) == no_totals()) by {
                        lemma_no_partition_no_totals(pre, key@);
                    }
                }
                assert(row_matches(row, key@, totals(pre, key@), spec_id));
                assert(totals(post, key@) == add_file(totals(pre, key@), *df));
            }
            let added = match df.content {
                ContentKind::Data => {
                    match (
                        row.record_count.checked_add(df.record_count),
                        row.file_count.checked_add(1),
                        row.total_data_file_size_in_bytes.checked_add(df.file_size_in_bytes),
                    ) {
                        (Some(a), Some(b), Some(c)) => {
                            row.record_count = a;
                            row.file_count = b;
                            row.total_data_file_size_in_bytes = c;
                            true
                        },
                        _ => false,
                    }
                },
                ContentKind::PositionDeletes => {
                    match (row.position_delete_record_count.checked_add(df.record_count), row.position_delete_file_count.checked_add(1)) {
                        (Some(a), Some(b)) => {
                            row.position_delete_record_count = a;
                            row.position_delete_file_count = b;
                            true
                        },
                        _ => false,
                    }
                },
                ContentKind::EqualityDeletes => {
                    match (row.equality_delete_record_count.checked_add(df.record_count), row.equality_delete_file_count.checked_add(1)) {
                        (Some(a), Some(b)) => {
                            row.equality_delete_record_count = a;
                            row.equality_delete_file_count = b;
                            true
                        },
                        _ => false,
                    }
                },
            };
            if !added {
                proof {
                    assert(!totals_fit(totals(post, key@)));
                    assert(!totals_fit(totals(entries@, key@)));
                }
                return None;
            }
            let ghost kv = key@;
            let ghost new_row = row;
            assert(row_matches(new_row, kv, totals(post, kv), spec_id));
            acc.insert(key, row);
            proof {
                assert(acc.map() == before.remove(kv).insert(kv, new_row));
                assert forall|k: Seq<char>| acc.map().contains_key(k) <==> has_partition(post, k) by {
                    if k == kv {
                        assert(is_alive(post[i as int]) && partition_key(post[i as int].data_file) == k);
                    } else {
                        if has_partition(post, k) {
                            let j = choose|j: int| 0 <= j < post.len() && is_alive(post[j]) && partition_key(#[trigger] post[j].data_file) == k;
                            assert(j < pre.len());
                            assert(pre[j] == post[j]);
                        }
                        if has_partition(pre, k) {
                            let j = choose|j: int| 0 <= j < pre.len() && is_alive(pre[j]) && partition_key(#[trigger] pre[j].data_file) == k;
                            assert(pre[j] == post[j]);
                        }
                    }
                }
            }
        }
        i += 1;
    }
    assert(entries@.take(i as int) =~= entries@);
    let ghost m = acc.map();
    let mut pairs = acc.into_entries();
    let ghost all_pairs = pairs@;
    proof {
        assert forall|j: int| 0 <= j < all_pairs.len() implies #[trigger] all_pairs[j].1.partition@ == all_pairs[j].0@
            && has_partition(entries@, all_pairs[j].0@) && row_matches(
            all_pairs[j].1,
            all_pairs[j].0@,
            totals(entries@, all_pairs[j].0@),
            spec_id,
        ) by {
            lemma_to_map_value(all_pairs, j);
        }
    }
    let mut rows: Vec<PartitionRow> = Vec::new();
    let mut j: usize = 0;
    let n = pairs.len();
    while j < n
        invariant
            n == all_pairs.len(),
            j <= n,
            pairs@ == all_pairs.skip(j as int),
            rows@.len() == j,
            forall|q: int| 0 <= q < j ==> (#[trigger] rows@[q]) == all_pairs[q].1,
        decreases n - j,
    {
        let (_k, r) = pairs.remove(0);
        assert(all_pairs.skip(j as int)[0] == all_pairs[j as int]);
        rows.push(r);
        j += 1;
        assert(pairs@ =~= all_pairs.skip(j as int));
    }
    proof {
        assert forall|a: int, b: int| 0 <= a < b < rows@.len() implies text_lt(
            (#[trigger] rows@[a]).partition@,
            (#[trigger] rows@[b]).partition@,
        ) by {
            assert(rows@[a].partition@ == all_pairs[a].0@);
            assert(rows@[b].partition@ == all_pairs[b].0@);
        }
        assert forall|k: Seq<char>| has_partition(entries@, k) implies exists|q: int|
            0 <= q < rows@.len() && (#[trigger] rows@[q]).partition@ == k by {
            assert(m.contains_key(k));
            lemma_to_map_dom(all_pairs, k);
            let q = choose|q: int| has_key_at(all_pairs, k, q);
            assert(rows@[q].partition@ == k);
        }
        assert forall|k: Seq<char>| totals_fit(#[trigger] totals(entries@, k)) by {
            if !has_partition(entries@, k) {
                lemma_no_partition_no_totals(entries@, k);
            }
        }
    }
    Some(rows)
}

/// A key with no live file has no sums.
proof fn lemma_no_partition_no_totals(s: Seq<ManifestEntryMeta>, key: Seq<char>)
    requires
        !has_partition(s, key),
    ensures
        totals(s, key) == no_totals(),
    decreases s.len(),
{
    if s.len() > 0 {
        let t = s.drop_last();
        assert(!has_partition(t, key)) by {
            if has_partition(t, key) {
                let j = choose|j: int| 0 <= j < t.len() && is_alive(t[j]) && partition_key(#[trigger] t[j].data_file) == key;
                assert(s[j] == t[j]);
            }
        }
        lemma_no_partition_no_totals(t, key);
        if is_alive(s.last()) && partition_key(s.last().data_file) == key {
            assert(has_partition(s, key)) by {
                assert(s[s.len() - 1] == s.last());
            }
        }
    }
}

/// The cell that shows the field named `h` of a row.
pub open spec fn partition_row_cell(r: PartitionRow, h: Seq<char>) -> CellView {
    if h == "partition"@ {
        CellView::Str(r.partition@)
    } else if h == "spec_id"@ {
        CellView::Int(r.spec_id as i64)
    } else if h == "record_count"@ {
        CellView::UInt(r.record_count)
    } else if h == "file_count"@ {
        CellView::UInt(r.file_count as u64)
    } else if h == "total_data_file_size_in_bytes"@ {
        CellView::UInt(r.total_data_file_size_in_bytes)
    } else if h == "position_delete_record_count"@ {
        CellView::UInt(r.position_delete_record_count)
    } else if h == "position_delete_file_count"@ {
        CellView::UInt(r.position_delete_file_count as u64)
    } else if h == "equality_delete_record_count"@ {
        CellView::UInt(r.equality_delete_record_count)
    } else if h == "equality_delete_file_count"@ {
        CellView::UInt(r.equality_delete_file_count as u64)
    } else {
        CellView::Null
    }
}

/// Every cell of a row, in either layout, shows the field that its column's header
/// names.
pub proof fn lemma_partition_row_cells_under_headers(r: PartitionRow, verbose: bool)
    ensures
        r.spec_row(verbose).len() == PartitionRow::spec_headers(verbose).len(),
        forall|j: int|
            0 <= j < r.spec_row(verbose).len() ==> #[trigger] r.spec_row(verbose)[j] == partition_row_cell(
                r,
                PartitionRow::spec_headers(verbose)[j],
            ),
{
    reveal_strlit("equality_delete_file_count");
    reveal_strlit("equality_delete_record_count");
    reveal_strlit("file_count");
    reveal_strlit("partition");
    reveal_strlit("position_delete_file_count");
    reveal_strlit("position_delete_record_count");
    reveal_strlit("record_count");
    reveal_strlit("spec_id");
    reveal_strlit("total_data_file_size_in_bytes");
    let hs = PartitionRow::spec_headers(true);
    assert forall|i: int, j: int| 0 <= i < j < hs.len() implies #[trigger] hs[i] != #[trigger] hs[j] by {
        if hs[i] == hs[j] {
            assert(hs[i].len() == hs[j].len());
            assert(hs[i][0] == hs[j][0]);
            assert(hs[i][hs[i].len() - 1] == hs[j][hs[j].len() - 1]);
        }
    }
}

} // verus!
