//! The `manifests` and `all_manifests` metadata tables.
use vstd::prelude::*;

use super::history::{opt_int, opt_int_cell};
use crate::render::{all_columns, row_view, str_views, Cell, CellView, Tabular};

verus! {

/// What a manifest tracks.
#[derive(Debug, Clone, Copy, PartialEq, Eq, Structural)]
pub enum ManifestContent {
    Data,
    Deletes,
}

/// The number a manifest content kind is stored as.
pub open spec fn manifest_content_code(c: ManifestContent) -> i32 {
    match c {
        ManifestContent::Data => 0,
        ManifestContent::Deletes => 1,
    }
}

impl ManifestContent {
    /// The number this kind is stored as.
    pub fn code(self) -> (n: i32)
        ensures
            n == manifest_content_code(self),
    {
        match self {
            ManifestContent::Data => 0,
            ManifestContent::Deletes => 1,
        }
    }
}

/// One manifest file as a manifest list records it.
#[derive(Debug)]
pub struct ManifestMeta {
    pub content: ManifestContent,
    pub path: String,
    pub length: i64,
    pub partition_spec_id: i32,
    pub added_snapshot_id: i64,
    pub added_files_count: Option<u32>,
    pub existing_files_count: Option<u32>,
    pub deleted_files_count: Option<u32>,
    pub added_rows_count: Option<u64>,
    pub existing_rows_count: Option<u64>,
    pub deleted_rows_count: Option<u64>,
}

/// The manifest list of one snapshot.
#[derive(Debug)]
pub struct SnapshotManifests {
    pub snapshot_id: i64,
    pub manifests: Vec<ManifestMeta>,
}

/// One row of the `manifests` tables.
#[derive(Debug)]
pub struct ManifestRow {
    pub content: i32,
    pub path: String,
    pub length: i64,
    pub partition_spec_id: i32,
    pub added_snapshot_id: i64,
    pub added_data_files_count: Option<u32>,
    pub existing_data_files_count: Option<u32>,
    pub deleted_data_files_count: Option<u32>,
    pub added_rows_count: Option<u64>,
    pub existing_rows_count: Option<u64>,
    pub deleted_rows_count: Option<u64>,
    /// The snapshot whose manifest list the row was found in (`all_manifests` only).
    pub reference_snapshot_id: Option<i64>,
}

/// The cell of an optional unsigned 32-bit count.
pub open spec fn opt_u32_cell(v: Option<u32>) -> CellView {
    match v {
        Some(n) => CellView::UInt(n as u64),
        None => CellView::Null,
    }
}

/// The cell of an optional unsigned count.
pub open spec fn opt_u64_cell(v: Option<u64>) -> CellView {
    match v {
        Some(n) => CellView::UInt(n),
        None => CellView::Null,
    }
}

/// The cell of an optional unsigned 32-bit count.
pub fn opt_u32(v: Option<u32>) -> (c: Cell)
    ensures
        c@ == opt_u32_cell(v),
{
    match v {
        Some(n) => Cell::UInt(n as u64),
        None => Cell::Null,
    }
}

/// The cell of an optional unsigned count.
pub fn opt_u64(v: Option<u64>) -> (c: Cell)
    ensures
        c@ == opt_u64_cell(v),
{
    match v {
        Some(n) => Cell::UInt(n),
        None => Cell::Null,
    }
}

impl Tabular for ManifestRow {
    open spec fn spec_headers(verbose: bool) -> Seq<Seq<char>> {
        seq![
            "content"@,
            "path"@,
            "length"@,
            "partition_spec_id"@,
            "added_snapshot_id"@,
            "added_data_files_count"@,
            "existing_data_files_count"@,
            "deleted_data_files_count"@,
            "added_rows_count"@,
            "existing_rows_count"@,
            "deleted_rows_count"@,
            "reference_snapshot_id"@,
        ]
    }

    open spec fn spec_row(&self, verbose: bool) -> Seq<CellView> {
        seq![
            CellView::Int(self.content as i64),
            CellView::Str(self.path@),
            CellView::Int(self.length),
            CellView::Int(self.partition_spec_id as i64),
            CellView::Int(self.added_snapshot_id),
            opt_u32_cell(self.added_data_files_count),
            opt_u32_cell(self.existing_data_files_count),
            opt_u32_cell(self.deleted_data_files_count),
            opt_u64_cell(self.added_rows_count),
            opt_u64_cell(self.existing_rows_count),
            opt_u64_cell(self.deleted_rows_count),
            opt_int_cell(self.reference_snapshot_id),
        ]
    }

    proof fn lemma_row_width(&self, verbose: bool) {
    }

    open spec fn compact_columns() -> Seq<int> {
        all_columns(12)
    }

    proof fn lemma_verbose_shows_compact_columns(&self) {
    }

    fn headers(verbose: bool) -> (h: Vec<&'static str>) {
        let h = vec![
            "content",
            "path",
            "length",
            "partition_spec_id",
            "added_snapshot_id",
            "added_data_files_count",
            "existing_data_files_count",
            "deleted_data_files_count",
            "added_rows_count",
            "existing_rows_count",
            "deleted_rows_count",
            "reference_snapshot_id",
        ];
        assert(str_views(h@) =~= Self::spec_headers(verbose));
        h
    }

    fn row(&self, verbose: bool) -> (r: Vec<Cell>) {
        let r = vec![
            Cell::Int(self.content as i64),
            Cell::Str(self.path.clone()),
            Cell::Int(self.length),
            Cell::Int(self.partition_spec_id as i64),
            Cell::Int(self.added_snapshot_id),
            opt_u32(self.added_data_files_count),
            opt_u32(self.existing_data_files_count),
            opt_u32(self.deleted_data_files_count),
            opt_u64(self.added_rows_count),
            opt_u64(self.existing_rows_count),
            opt_u64(self.deleted_rows_count),
            opt_int(self.reference_snapshot_id),
        ];
        assert(row_view(r@) =~= self.spec_row(verbose));
        r
    }
}

/// The row of a manifest carries its fields and the given reference snapshot.
pub open spec fn manifest_row_of(r: ManifestRow, m: ManifestMeta, reference: Option<i64>) -> bool {
    &&& r.content == manifest_content_code(m.content)
    &&& r.path@ == m.path@
    &&& r.length == m.length
    &&& r.partition_spec_id == m.partition_spec_id
    &&& r.added_snapshot_id == m.added_snapshot_id
    &&& r.added_data_files_count == m.added_files_count
    &&& r.existing_data_files_count == m.existing_files_count
    &&& r.deleted_data_files_count == m.deleted_files_count
    &&& r.added_rows_count == m.added_rows_count
    &&& r.existing_rows_count == m.existing_rows_count
    &&& r.deleted_rows_count == m.deleted_rows_count
    &&& r.reference_snapshot_id == reference
}

/// The row of one manifest.
pub fn from_manifest(m: &ManifestMeta, reference: Option<i64>) -> (r: ManifestRow)
    ensures
        manifest_row_of(r, *m, reference),
{
    ManifestRow {
        content: m.content.code(),
        path: m.path.clone(),
        length: m.length,
        partition_spec_id: m.partition_spec_id,
        added_snapshot_id: m.added_snapshot_id,
        added_data_files_count: m.added_files_count,
        existing_data_files_count: m.existing_files_count,
        deleted_data_files_count: m.deleted_files_count,
        added_rows_count: m.added_rows_count,
        existing_rows_count: m.existing_rows_count,
        deleted_rows_count: m.deleted_rows_count,
        reference_snapshot_id: reference,
    }
}

/// The `manifests` table: one row per manifest of the snapshot's manifest list.
pub fn current(list: &Vec<ManifestMeta>) -> (rows: Vec<ManifestRow>)
    ensures
        rows@.len() == list@.len(),
        forall|i: int| 0 <= i < rows@.len() ==> manifest_row_of(#[trigger] rows@[i], list@[i], None),
{
    let mut rows: Vec<ManifestRow> = Vec::new();
    let mut i: usize = 0;
    while i < list.len()
        invariant
            i <= list@.len(),
            rows@.len() == i,
            forall|j: int| 0 <= j < i ==> manifest_row_of(#[trigger] rows@[j], list@[j], None),
        decreases list@.len() - i,
    {
        rows.push(from_manifest(&list[i], None));
        i += 1;
    }
    rows
}

/// The manifests of one snapshot, each tagged with the snapshot's id.
pub open spec fn tagged(sm: SnapshotManifests) -> Seq<(i64, ManifestMeta)> {
    sm.manifests@.map_values(|m: ManifestMeta| (sm.snapshot_id, m))
}

/// The manifests of all the given snapshots, in order, each tagged with its snapshot.
pub open spec fn flat_manifests(lists: Seq<SnapshotManifests>) -> Seq<(i64, ManifestMeta)>
    decreases lists.len(),
{
    if lists.len() == 0 {
        Seq::empty()
    } else {
        flat_manifests(lists.drop_last()) + tagged(lists.last())
    }
}

/// The `all_manifests` table: one row per manifest of every snapshot's manifest
/// list, in snapshot order, tagged with the snapshot that lists it.
pub fn all(lists: &Vec<SnapshotManifests>) -> (rows: Vec<ManifestRow>)
    ensures
        rows@.len() == flat_manifests(lists@).len(),
        forall|i: int|
            0 <= i < rows@.len() ==> manifest_row_of(
                #[trigger] rows@[i],
                flat_manifests(lists@)[i].1,
                Some(flat_manifests(lists@)[i].0),
            ),
{
    let mut rows: Vec<ManifestRow> = Vec::new();
    let ghost mut done: Seq<(i64, ManifestMeta)> = Seq::empty();
    let mut a: usize = 0;
    while a < lists.len()
        invariant
            a <= lists@.len(),
            done == flat_manifests(lists@.take(a as int)),
            rows@.len() == done.len(),
            forall|i: int| 0 <= i < rows@.len() ==> manifest_row_of(#[trigger] rows@[i], done[i].1, Some(done[i].0)),
        decreases lists@.len() - a,
    {
        let sm = &lists[a];
        let ghost base = done;
        let mut b: usize = 0;
        while b < sm.manifests.len()
            invariant
                a < lists@.len(),
                *sm == lists@[a as int],
                b <= sm.manifests@.len(),
                done == base + tagged(*sm).take(b as int),
                rows@.len() == done.len(),
                forall|i: int|
                    0 <= i < rows@.len() ==> manifest_row_of(#[trigger] rows@[i], done[i].1, Some(done[i].0)),
            decreases sm.manifests@.len() - b,
        {
            let m = &sm.manifests[b];
            let ghost next = done.push((sm.snapshot_id, *m));
            proof {
                assert(tagged(*sm)[b as int] == (sm.snapshot_id, *m));
                assert(base + tagged(*sm).take(b + 1) =~= next);
            }
            rows.push(from_manifest(m, Some(sm.snapshot_id)));
            proof {
                done = next;
            }
            b += 1;
        }
        proof {
            assert(tagged(*sm).take(b as int) =~= tagged(*sm));
            assert(lists@.take(a + 1).drop_last() =~= lists@.take(a as int));
            assert(lists@.take(a + 1).last() == lists@[a as int]);
        }
        a += 1;
    }
    assert(lists@.take(a as int) =~= lists@);
    rows
}

/// The cell that shows the field named `h` of a row.
pub open spec fn manifest_row_cell(r: ManifestRow, h: Seq<char>) -> CellView {
    if h == "content"@ {
        CellView::Int(r.content as i64)
    } else if h == "path"@ {
        CellView::Str(r.path@)
    } else if h == "length"@ {
        CellView::Int(r.length)
    } else if h == "partition_spec_id"@ {
        CellView::Int(r.partition_spec_id as i64)
    } else if h == "added_snapshot_id"@ {
        CellView::Int(r.added_snapshot_id)
    } else if h == "added_data_files_count"@ {
        opt_u32_cell(r.added_data_files_count)
    } else if h == "existing_data_files_count"@ {
        opt_u32_cell(r.existing_data_files_count)
    } else if h == "deleted_data_files_count"@ {
        opt_u32_cell(r.deleted_data_files_count)
    } else if h == "added_rows_count"@ {
        opt_u64_cell(r.added_rows_count)
    } else if h == "existing_rows_count"@ {
        opt_u64_cell(r.existing_rows_count)
    } else if h == "deleted_rows_count"@ {
        opt_u64_cell(r.deleted_rows_count)
    } else if h == "reference_snapshot_id"@ {
        opt_int_cell(r.reference_snapshot_id)
    } else {
        CellView::Null
    }
}

/// Every cell of a row, in either layout, shows the field that its column's header
/// names.
pub proof fn lemma_manifest_row_cells_under_headers(r: ManifestRow, verbose: bool)
    ensures
        r.spec_row(verbose).len() == ManifestRow::spec_headers(verbose).len(),
        forall|j: int|
            0 <= j < r.spec_row(verbose).len() ==> #[trigger] r.spec_row(verbose)[j] == manifest_row_cell(
                r,
                ManifestRow::spec_headers(verbose)[j],
            ),
{
    reveal_strlit("added_data_files_count");
    reveal_strlit("added_rows_count");
    reveal_strlit("added_snapshot_id");
    reveal_strlit("content");
    reveal_strlit("deleted_data_files_count");
    reveal_strlit("deleted_rows_count");
    reveal_strlit("existing_data_files_count");
    reveal_strlit("existing_rows_count");
    reveal_strlit("length");
    reveal_strlit("partition_spec_id");
    reveal_strlit("path");
    reveal_strlit("reference_snapshot_id");
    let hs = ManifestRow::spec_headers(true);
    assert forall|i: int, j: int| 0 <= i < j < hs.len() implies #[trigger] hs[i] != #[trigger] hs[j] by {
        if hs[i] == hs[j] {
            assert(hs[i].len() == hs[j].len());
            assert(hs[i][0] == hs[j][0]);
            assert(hs[i][hs[i].len() - 1] == hs[j][hs[j].len() - 1]);
        }
    }
}

} // verus!
