//! The `metadata_log_entries` metadata table: earlier metadata files.
use vstd::prelude::*;

use super::{MetadataLogEntry, TableMeta};
use crate::render::{all_columns, row_view, str_views, Cell, CellView, Tabular};

verus! {

/// One row of the `metadata_log_entries` table.
#[derive(Debug)]
pub struct MetadataLogRow {
    pub timestamp: i64,
    pub file: String,
}

impl Tabular for MetadataLogRow {
    open spec fn spec_headers(verbose: bool) -> Seq<Seq<char>> {
        seq!["timestamp"@, "file"@]
    }

    open spec fn spec_row(&self, verbose: bool) -> Seq<CellView> {
        seq![CellView::Int(self.timestamp), CellView::Str(self.file@)]
    }

    proof fn lemma_row_width(&self, verbose: bool) {
    }

    open spec fn compact_columns() -> Seq<int> {
        all_columns(2)
    }

    proof fn lemma_verbose_shows_compact_columns(&self) {
    }

    fn headers(verbose: bool) -> (h: Vec<&'static str>) {
        let h = vec!["timestamp", "file"];
        assert(str_views(h@) =~= Self::spec_headers(verbose));
        h
    }

    fn row(&self, verbose: bool) -> (r: Vec<Cell>) {
        let r = vec![Cell::Int(self.timestamp), Cell::Str(self.file.clone())];
        assert(row_view(r@) =~= self.spec_row(verbose));
        r
    }
}

/// The `metadata_log_entries` table: one row per metadata-log entry, in log order.
pub fn extract(meta: &TableMeta) -> (rows: Vec<MetadataLogRow>)
    ensures
        rows@.len() == meta.metadata_log@.len(),
        forall|i: int|
            0 <= i < rows@.len() ==> (#[trigger] rows@[i]).timestamp == meta.metadata_log@[i].timestamp_ms
                && rows@[i].file@ == meta.metadata_log@[i].metadata_file@,
{
    let mut rows: Vec<MetadataLogRow> = Vec::new();
    let mut i: usize = 0;
    while i < meta.metadata_log.len()
        invariant
            i <= meta.metadata_log@.len(),
            rows@.len() == i,
            forall|j: int|
                0 <= j < i ==> (#[trigger] rows@[j]).timestamp == meta.metadata_log@[j].timestamp_ms
                    && rows@[j].file@ == meta.metadata_log@[j].metadata_file@,
        decreases meta.metadata_log@.len() - i,
    {
        let e: &MetadataLogEntry = &meta.metadata_log[i];
        rows.push(MetadataLogRow { timestamp: e.timestamp_ms, file: e.metadata_file.clone() });
        i += 1;
    }
    rows
}

/// The cell that shows the field named `h` of a row.
pub open spec fn metadata_log_row_cell(r: MetadataLogRow, h: Seq<char>) -> CellView {
    if h == "timestamp"@ {
        CellView::Int(r.timestamp)
    } else if h == "file"@ {
        CellView::Str(r.file@)
    } else {
        CellView::Null
    }
}

/// Every cell of a row, in either layout, shows the field that its column's header
/// names.
pub proof fn lemma_metadata_log_row_cells_under_headers(r: MetadataLogRow, verbose: bool)
    ensures
        r.spec_row(verbose).len() == MetadataLogRow::spec_headers(verbose).len(),
        forall|j: int|
            0 <= j < r.spec_row(verbose).len() ==> #[trigger] r.spec_row(verbose)[j] == metadata_log_row_cell(
                r,
                MetadataLogRow::spec_headers(verbose)[j],
            ),
{
    reveal_strlit("file");
    reveal_strlit("timestamp");
    let hs = MetadataLogRow::spec_headers(true);
    assert forall|i: int, j: int| 0 <= i < j < hs.len() implies #[trigger] hs[i] != #[trigger] hs[j] by {
        if hs[i] == hs[j] {
            assert(hs[i].len() == hs[j].len());
            assert(hs[i][0] == hs[j][0]);
            assert(hs[i][hs[i].len() - 1] == hs[j][hs[j].len() - 1]);
        }
    }
}

} // verus!
