//! The `refs` metadata table: branches and tags with their retention.
use vstd::prelude::*;

use super::history::{opt_int, opt_int_cell};
use super::{RefMeta, Retention, TableMeta};
use crate::render::{all_columns, row_view, str_views, Cell, CellView, Tabular};

verus! {

/// One row of the `refs` table.
#[derive(Debug)]
pub struct RefRow {
    pub name: String,
    /// `branch` or `tag`.
    pub ref_type: &'static str,
    pub snapshot_id: i64,
    pub max_reference_age_in_ms: Option<i64>,
    pub min_snapshots_to_keep: Option<i32>,
    pub max_snapshot_age_in_ms: Option<i64>,
}

/// The cell of an optional 32-bit number, widened.
pub open spec fn opt_i32_cell(v: Option<i32>) -> CellView {
    match v {
        Some(n) => CellView::Int(n as i64),
        None => CellView::Null,
    }
}

/// The cell of an optional 32-bit number.
pub fn opt_i32(v: Option<i32>) -> (c: Cell)
    ensures
        c@ == opt_i32_cell(v),
{
    match v {
        Some(n) => Cell::Int(n as i64),
        None => Cell::Null,
    }
}

impl Tabular for RefRow {
    open spec fn spec_headers(verbose: bool) -> Seq<Seq<char>> {
        seq![
            "name"@,
            "type"@,
            "snapshot_id"@,
            "max_reference_age_in_ms"@,
            "min_snapshots_to_keep"@,
            "max_snapshot_age_in_ms"@,
        ]
    }

    open spec fn spec_row(&self, verbose: bool) -> Seq<CellView> {
        seq![
            CellView::Str(self.name@),
            CellView::Str(self.ref_type@),
            CellView::Int(self.snapshot_id),
            opt_int_cell(self.max_reference_age_in_ms),
            opt_i32_cell(self.min_snapshots_to_keep),
            opt_int_cell(self.max_snapshot_age_in_ms),
        ]
    }

    proof fn lemma_row_width(&self, verbose: bool) {
    }

    open spec fn compact_columns() -> Seq<int> {
        all_columns(6)
    }

    proof fn lemma_verbose_shows_compact_columns(&self) {
    }

    fn headers(verbose: bool) -> (h: Vec<&'static str>) {
        let h = vec![
            "name",
            "type",
            "snapshot_id",
            "max_reference_age_in_ms",
            "min_snapshots_to_keep",
            "max_snapshot_age_in_ms",
        ];
        assert(str_views(h@) =~= Self::spec_headers(verbose));
        h
    }

    fn row(&self, verbose: bool) -> (r: Vec<Cell>) {
        let r = vec![
            Cell::Str(self.name.clone()),
            Cell::Str(crate::text::owned(self.ref_type)),
            Cell::Int(self.snapshot_id),
            opt_int(self.max_reference_age_in_ms),
            opt_i32(self.min_snapshots_to_keep),
            opt_int(self.max_snapshot_age_in_ms),
        ];
        assert(row_view(r@) =~= self.spec_row(verbose));
        r
    }
}

/// The row of one reference: a branch carries all three retention settings, a tag
/// only the reference age.
pub open spec fn ref_row_of(r: RefRow, m: RefMeta) -> bool {
    &&& r.name@ == m.name@
    &&& r.snapshot_id == m.snapshot_id
    &&& match m.retention {
        Retention::Branch { min_snapshots_to_keep, max_snapshot_age_ms, max_ref_age_ms } => {
            &&& r.ref_type@ == "branch"@
            &&& r.min_snapshots_to_keep == min_snapshots_to_keep
            &&& r.max_snapshot_age_in_ms == max_snapshot_age_ms
            &&& r.max_reference_age_in_ms == max_ref_age_ms
        },
        Retention::Tag { max_ref_age_ms } => {
            &&& r.ref_type@ == "tag"@
            &&& r.min_snapshots_to_keep is None
            &&& r.max_snapshot_age_in_ms is None
            &&& r.max_reference_age_in_ms == max_ref_age_ms
        },
    }
}

/// The `refs` table: one row per named reference, in the order given.
pub fn extract(meta: &TableMeta) -> (rows: Vec<RefRow>)
    ensures
        rows@.len() == meta.refs@.len(),
        forall|i: int| 0 <= i < rows@.len() ==> ref_row_of(#[trigger] rows@[i], meta.refs@[i]),
{
    let mut rows: Vec<RefRow> = Vec::new();
    let mut i: usize = 0;
    while i < meta.refs.len()
        invariant
            i <= meta.refs@.len(),
            rows@.len() == i,
            forall|j: int| 0 <= j < i ==> ref_row_of(#[trigger] rows@[j], meta.refs@[j]),
        decreases meta.refs@.len() - i,
    {
        let m = &meta.refs[i];
        let row = match &m.retention {
            Retention::Branch { min_snapshots_to_keep, max_snapshot_age_ms, max_ref_age_ms } => {
                proof {
                    reveal_strlit("branch");
                }
                RefRow {
                    name: m.name.clone(),
                    ref_type: "branch",
                    snapshot_id: m.snapshot_id,
                    max_reference_age_in_ms: *max_ref_age_ms,
                    min_snapshots_to_keep: *min_snapshots_to_keep,
                    max_snapshot_age_in_ms: *max_snapshot_age_ms,
                }
            },
            Retention::Tag { max_ref_age_ms } => {
                proof {
                    reveal_strlit("tag");
                }
                RefRow {
                    name: m.name.clone(),
                    ref_type: "tag",
                    snapshot_id: m.snapshot_id,
                    max_reference_age_in_ms: *max_ref_age_ms,
                    min_snapshots_to_keep: None,
                    max_snapshot_age_in_ms: None,
                }
            },
        };
        rows.push(row);
        i += 1;
    }
    rows
}

/// The cell that shows the field named `h` of a row.
pub open spec fn ref_row_cell(r: RefRow, h: Seq<char>) -> CellView {
    if h == "name"@ {
        CellView::Str(r.name@)
    } else if h == "type"@ {
        CellView::Str(r.ref_type@)
    } else if h == "snapshot_id"@ {
        CellView::Int(r.snapshot_id)
    } else if h == "max_reference_age_in_ms"@ {
        opt_int_cell(r.max_reference_age_in_ms)
    } else if h == "min_snapshots_to_keep"@ {
        opt_i32_cell(r.min_snapshots_to_keep)
    } else if h == "max_snapshot_age_in_ms"@ {
        opt_int_cell(r.max_snapshot_age_in_ms)
    } else {
        CellView::Null
    }
}

/// Every cell of a row, in either layout, shows the field that its column's header
/// names.
pub proof fn lemma_ref_row_cells_under_headers(r: RefRow, verbose: bool)
    ensures
        r.spec_row(verbose).len() == RefRow::spec_headers(verbose).len(),
        forall|j: int|
            0 <= j < r.spec_row(verbose).len() ==> #[trigger] r.spec_row(verbose)[j] == ref_row_cell(
                r,
                RefRow::spec_headers(verbose)[j],
            ),
{
    reveal_strlit("max_reference_age_in_ms");
    reveal_strlit("max_snapshot_age_in_ms");
    reveal_strlit("min_snapshots_to_keep");
    reveal_strlit("name");
    reveal_strlit("snapshot_id");
    reveal_strlit("type");
    let hs = RefRow::spec_headers(true);
    assert forall|i: int, j: int| 0 <= i < j < hs.len() implies #[trigger] hs[i] != #[trigger] hs[j] by {
        if hs[i] == hs[j] {
            assert(hs[i].len() == hs[j].len());
            assert(hs[i][0] == hs[j][0]);
            assert(hs[i][hs[i].len() - 1] == hs[j][hs[j].len() - 1]);
        }
    }
}

} // verus!
