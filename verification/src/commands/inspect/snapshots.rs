//! The `snapshots` metadata table: every snapshot with its summary.
use vstd::prelude::*;

use super::history::{opt_int, opt_int_cell};
use super::{SnapshotMeta, TableMeta};
use crate::json::{json_object, json_object_text, json_quote, json_string_text, pair_views};
use crate::render::{all_columns, row_view, str_views, Cell, CellView, Tabular};

verus! {

/// One row of the `snapshots` table.
#[derive(Debug)]
pub struct SnapshotRow {
    pub snapshot_id: i64,
    pub parent_id: Option<i64>,
    pub timestamp_ms: i64,
    pub operation: String,
    pub manifest_list: String,
    /// The additional properties of the snapshot summary.
    pub summary: Vec<(String, String)>,
}

/// The members of a summary as a JSON object: each value a JSON string.
pub open spec fn summary_members(summary: Seq<(Seq<char>, Seq<char>)>) -> Seq<(Seq<char>, Seq<char>)> {
    summary.map_values(|p: (Seq<char>, Seq<char>)| (p.0, json_string_text(p.1)))
}

/// The summary shown as a compact JSON object.
pub open spec fn summary_json(summary: Seq<(Seq<char>, Seq<char>)>) -> Seq<char> {
    json_object_text(summary_members(summary))
}

/// The JSON object of a summary.
pub fn summary_text(summary: &Vec<(String, String)>) -> (s: String)
    ensures
        s@ == summary_json(pair_views(summary@)),
{
    let ghost want = summary_members(pair_views(summary@));
    let mut members: Vec<(String, String)> = Vec::new();
    let mut i: usize = 0;
    while i < summary.len()
        invariant
            i <= summary@.len(),
            want == summary_members(pair_views(summary@)),
            pair_views(members@) == want.take(i as int),
        decreases summary@.len() - i,
    {
        let k = summary[i].0.clone();
        let v = json_quote(summary[i].1.as_str());
        let ghost before = members@;
        assert(want[i as int] == (k@, v@));
        members.push((k, v));
        assert(pair_views(members@) =~= pair_views(before).push(want[i as int]));
        i += 1;
        assert(pair_views(members@) =~= want.take(i as int));
    }
    assert(want.take(i as int) =~= want);
    json_object(members.as_slice())
}

impl Tabular for SnapshotRow {
    open spec fn spec_headers(verbose: bool) -> Seq<Seq<char>> {
        seq![
            "snapshot_id"@,
            "parent_id"@,
            "timestamp_ms"@,
            "operation"@,
            "manifest_list"@,
            "summary"@,
        ]
    }

    open spec fn spec_row(&self, verbose: bool) -> Seq<CellView> {
        seq![
            CellView::Int(self.snapshot_id),
            opt_int_cell(self.parent_id),
            CellView::Int(self.timestamp_ms),
            CellView::Str(self.operation@),
            CellView::Str(self.manifest_list@),
            CellView::Str(summary_json(pair_views(self.summary@))),
        ]
    }

    proof fn lemma_row_width(&self, verbose: bool) {
    }

    open spec fn compact_columns() -> Seq<int> {
        all_columns(6)
    }

    proof fn lemma_verbose_shows_compact_columns(&self) {
    }

    fn headers(verbose: bool) -> (h: Vec<&'static str>) {
        let h = vec!["snapshot_id", "parent_id", "timestamp_ms", "operation", "manifest_list", "summary"];
        assert(str_views(h@) =~= Self::spec_headers(verbose));
        h
    }

    fn row(&self, verbose: bool) -> (r: Vec<Cell>) {
        let r = vec![
            Cell::Int(self.snapshot_id),
            opt_int(self.parent_id),
            Cell::Int(self.timestamp_ms),
            Cell::Str(self.operation.clone()),
            Cell::Str(self.manifest_list.clone()),
            Cell::Str(summary_text(&self.summary)),
        ];
        assert(row_view(r@) =~= self.spec_row(verbose));
        r
    }
}

/// A copy of (key, value) string pairs.
pub fn copy_pairs(v: &Vec<(String, String)>) -> (r: Vec<(String, String)>)
    ensures
        pair_views(r@) == pair_views(v@),
{
    let mut r: Vec<(String, String)> = Vec::new();
    let mut i: usize = 0;
    while i < v.len()
        invariant
            i <= v@.len(),
            pair_views(r@) == pair_views(v@).take(i as int),
        decreases v@.len() - i,
    {
        let ghost before = r@;
        r.push((v[i].0.clone(), v[i].1.clone()));
        assert(pair_views(r@) =~= pair_views(before).push(pair_views(v@)[i as int]));
        i += 1;
        assert(pair_views(r@) =~= pair_views(v@).take(i as int));
    }
    assert(pair_views(v@).take(i as int) =~= pair_views(v@));
    r
}

/// The row of one snapshot carries its fields.
pub open spec fn snapshot_row_of(r: SnapshotRow, s: SnapshotMeta) -> bool {
    &&& r.snapshot_id == s.snapshot_id
    &&& r.parent_id == s.parent_id
    &&& r.timestamp_ms == s.timestamp_ms
    &&& r.operation@ == s.operation@
    &&& r.manifest_list@ == s.manifest_list@
    &&& pair_views(r.summary@) == pair_views(s.summary@)
}

/// The `snapshots` table: one row per snapshot, in the order the metadata lists them.
pub fn extract(meta: &TableMeta) -> (rows: Vec<SnapshotRow>)
    ensures
        rows@.len() == meta.snapshots@.len(),
        forall|i: int| 0 <= i < rows@.len() ==> snapshot_row_of(#[trigger] rows@[i], meta.snapshots@[i]),
{
    let mut rows: Vec<SnapshotRow> = Vec::new();
    let mut i: usize = 0;
    while i < meta.snapshots.len()
        invariant
            i <= meta.snapshots@.len(),
            rows@.len() == i,
            forall|j: int| 0 <= j < i ==> snapshot_row_of(#[trigger] rows@[j], meta.snapshots@[j]),
        decreases meta.snapshots@.len() - i,
    {
        let s = &meta.snapshots[i];
        rows.push(
            SnapshotRow {
                snapshot_id: s.snapshot_id,
                parent_id: s.parent_id,
                timestamp_ms: s.timestamp_ms,
                operation: s.operation.clone(),
                manifest_list: s.manifest_list.clone(),
                summary: copy_pairs(&s.summary),
            },
        );
        i += 1;
    }
    rows
}

/// The cell that shows the field named `h` of a row.
pub open spec fn snapshot_row_cell(r: SnapshotRow, h: Seq<char>) -> CellView {
    if h == "snapshot_id"@ {
        CellView::Int(r.snapshot_id)
    } else if h == "parent_id"@ {
        opt_int_cell(r.parent_id)
    } else if h == "timestamp_ms"@ {
        CellView::Int(r.timestamp_ms)
    } else if h == "operation"@ {
        CellView::Str(r.operation@)
    } else if h == "manifest_list"@ {
        CellView::Str(r.manifest_list@)
    } else if h == "summary"@ {
        CellView::Str(summary_json(pair_views(r.summary@)))
    } else {
        CellView::Null
    }
}

/// Every cell of a row, in either layout, shows the field that its column's header
/// names.
pub proof fn lemma_snapshot_row_cells_under_headers(r: SnapshotRow, verbose: bool)
    ensures
        r.spec_row(verbose).len() == SnapshotRow::spec_headers(verbose).len(),
        forall|j: int|
            0 <= j < r.spec_row(verbose).len() ==> #[trigger] r.spec_row(verbose)[j] == snapshot_row_cell(
                r,
                SnapshotRow::spec_headers(verbose)[j],
            ),
{
    reveal_strlit("manifest_list");
    reveal_strlit("operation");
    reveal_strlit("parent_id");
    reveal_strlit("snapshot_id");
    reveal_strlit("summary");
    reveal_strlit("timestamp_ms");
    let hs = SnapshotRow::spec_headers(true);
    assert forall|i: int, j: int| 0 <= i < j < hs.len() implies #[trigger] hs[i] != #[trigger] hs[j] by {
        if hs[i] == hs[j] {
            assert(hs[i].len() == hs[j].len());
            assert(hs[i][0] == hs[j][0]);
            assert(hs[i][hs[i].len() - 1] == hs[j][hs[j].len() - 1]);
        }
    }
}

} // verus!
