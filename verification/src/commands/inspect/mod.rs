//! The `inspect` command: Iceberg metadata tables (snapshots, history, refs,
//! manifests, entries, files, partitions) computed from a plain model of a
//! table's metadata and manifests.
pub mod entries;
pub mod files;
pub mod history;
pub mod legacy;
pub mod manifests;
pub mod metadata_log;
pub mod partitions;
pub mod query;
pub mod refs;
pub mod snapshots;

use vstd::prelude::*;

use crate::cli::MetadataTable;
use crate::text::{i64_text, int_text, owned, push_str, views};

verus! {

/// A snapshot as the table metadata records it.
pub struct SnapshotMeta {
    pub snapshot_id: i64,
    pub parent_id: Option<i64>,
    pub timestamp_ms: i64,
    /// The operation of the snapshot summary (`append`, `overwrite`, ...).
    pub operation: String,
    pub manifest_list: String,
    /// The additional properties of the snapshot summary.
    pub summary: Vec<(String, String)>,
}

/// One entry of the snapshot log: when a snapshot became current.
pub struct SnapshotLogEntry {
    pub timestamp_ms: i64,
    pub snapshot_id: i64,
}

/// One entry of the metadata log: an earlier metadata file.
pub struct MetadataLogEntry {
    pub timestamp_ms: i64,
    pub metadata_file: String,
}

/// The retention policy of a named reference.
pub enum Retention {
    Branch {
        min_snapshots_to_keep: Option<i32>,
        max_snapshot_age_ms: Option<i64>,
        max_ref_age_ms: Option<i64>,
    },
    Tag { max_ref_age_ms: Option<i64> },
}

/// A named reference (branch or tag) to a snapshot.
pub struct RefMeta {
    pub name: String,
    pub snapshot_id: i64,
    pub retention: Retention,
}

/// The parts of a table's metadata that the metadata tables read.
pub struct TableMeta {
    pub current_snapshot_id: Option<i64>,
    pub snapshots: Vec<SnapshotMeta>,
    pub snapshot_log: Vec<SnapshotLogEntry>,
    pub metadata_log: Vec<MetadataLogEntry>,
    pub refs: Vec<RefMeta>,
    /// The id of the default partition spec.
    pub default_spec_id: i32,
}

/// Some snapshot carries `id`.
pub open spec fn has_snapshot(snaps: Seq<SnapshotMeta>, id: i64) -> bool {
    exists|i: int| 0 <= i < snaps.len() && #[trigger] snaps[i].snapshot_id == id
}

/// The snapshot that carries `id` (meaningful when there is one).
pub open spec fn snapshot_with(snaps: Seq<SnapshotMeta>, id: i64) -> SnapshotMeta {
    snaps[choose|i: int| 0 <= i < snaps.len() && #[trigger] snaps[i].snapshot_id == id]
}

/// The parent of the snapshot `id`, if that snapshot is known and has one.
pub open spec fn parent_of(snaps: Seq<SnapshotMeta>, id: i64) -> Option<i64> {
    if has_snapshot(snaps, id) {
        snapshot_with(snaps, id).parent_id
    } else {
        None
    }
}

/// No two snapshots carry the same id.
pub open spec fn distinct_snapshot_ids(snaps: Seq<SnapshotMeta>) -> bool {
    forall|i: int, j: int|
        0 <= i < snaps.len() && 0 <= j < snaps.len() && i != j ==> snaps[i].snapshot_id
            != snaps[j].snapshot_id
}

impl TableMeta {
    /// What loaded table metadata guarantees: snapshot ids are unique, and the
    /// current snapshot, if set, is one of them.
    pub open spec fn valid(&self) -> bool {
        &&& distinct_snapshot_ids(self.snapshots@)
        &&& match self.current_snapshot_id {
            Some(id) => has_snapshot(self.snapshots@, id),
            None => true,
        }
    }
}

/// With unique ids, a snapshot found at `i` is the one that carries its id.
pub proof fn lemma_snapshot_with(snaps: Seq<SnapshotMeta>, i: int)
    requires
        distinct_snapshot_ids(snaps),
        0 <= i < snaps.len(),
    ensures
        has_snapshot(snaps, snaps[i].snapshot_id),
        snapshot_with(snaps, snaps[i].snapshot_id) == snaps[i],
{
    let id = snaps[i].snapshot_id;
    assert(snaps[i].snapshot_id == id);
    let j = choose|j: int| 0 <= j < snaps.len() && #[trigger] snaps[j].snapshot_id == id;
    assert(j == i);
}

/// The position of the snapshot carrying `id` (`TableMetadata::snapshot_by_id`).
pub fn find_snapshot(snaps: &Vec<SnapshotMeta>, id: i64) -> (r: Option<usize>)
    ensures
        match r {
            Some(i) => i < snaps@.len() && snaps@[i as int].snapshot_id == id,
            None => !has_snapshot(snaps@, id),
        },
{
    let mut i: usize = 0;
    while i < snaps.len()
        invariant
            i <= snaps@.len(),
            forall|j: int| 0 <= j < i ==> #[trigger] snaps@[j].snapshot_id != id,
        decreases snaps@.len() - i,
    {
        if snaps[i].snapshot_id == id {
            return Some(i);
        }
        i += 1;
    }
    None
}

impl TableMeta {
    /// Whether this metadata is `valid`: no snapshot id occurs twice and the current
    /// snapshot, if one is set, is among the snapshots.
    pub fn is_valid(&self) -> (b: bool)
        ensures
            b == self.valid(),
    {
        let n = self.snapshots.len();
        let mut i: usize = 0;
        while i < n
            invariant
                n == self.snapshots@.len(),
                i <= n,
                forall|a: int, c: int|
                    0 <= a < i && 0 <= c < n && a != c ==> #[trigger] self.snapshots@[a].snapshot_id
                        != #[trigger] self.snapshots@[c].snapshot_id,
            decreases n - i,
        {
            let mut j: usize = 0;
            while j < n
                invariant
                    n == self.snapshots@.len(),
                    i < n,
                    j <= n,
                    forall|a: int, c: int|
                        0 <= a < i && 0 <= c < n && a != c ==> #[trigger] self.snapshots@[a].snapshot_id
                            != #[trigger] self.snapshots@[c].snapshot_id,
                    forall|c: int|
                        0 <= c < j && c != i ==> self.snapshots@[i as int].snapshot_id
                            != #[trigger] self.snapshots@[c].snapshot_id,
                decreases n - j,
            {
                if j != i && self.snapshots[i].snapshot_id == self.snapshots[j].snapshot_id {
                    return false;
                }
                j += 1;
            }
            proof {
                assert forall|a: int, c: int|
                    0 <= a < i + 1 && 0 <= c < n && a != c implies #[trigger] self.snapshots@[a].snapshot_id
                        != #[trigger] self.snapshots@[c].snapshot_id by {
                    if a == i && c < i {
                        assert(self.snapshots@[c].snapshot_id != self.snapshots@[a].snapshot_id);
                    }
                }
            }
            i += 1;
        }
        match self.current_snapshot_id {
            Some(id) => find_snapshot(&self.snapshots, id).is_some(),
            None => true,
        }
    }
}

/// Why an inspection could not be made.
#[derive(Debug)]
pub enum InspectError {
    /// Neither a metadata table nor a query was given.
    NothingToInspect,
    /// The requested snapshot is not in the table.
    SnapshotNotFound { id: i64 },
    /// No snapshot was requested and the table has none current.
    NoCurrentSnapshot,
}

/// The message that each inspection error is reported with.
pub open spec fn inspect_error_text(e: InspectError) -> Seq<char> {
    match e {
        InspectError::NothingToInspect => "either a metadata table positional argument or --query/-q is required"@,
        InspectError::SnapshotNotFound { id } => "snapshot "@ + int_text(id as int) + " not found"@,
        InspectError::NoCurrentSnapshot => "table has no current snapshot"@,
    }
}

impl InspectError {
    /// The message this error is reported with.
    pub fn message(&self) -> (s: String)
        ensures
            s@ == inspect_error_text(*self),
    {
        match self {
            InspectError::NothingToInspect => {
                let s = owned("either a metadata table positional argument or --query/-q is required");
                s
            },
            InspectError::SnapshotNotFound { id } => {
                let mut s = owned("snapshot ");
                let n = i64_text(*id);
                push_str(&mut s, n.as_str());
                push_str(&mut s, " not found");
                s
            },
            InspectError::NoCurrentSnapshot => owned("table has no current snapshot"),
        }
    }
}

/// The snapshot that an inspection reads: the one asked for, else the current one.
pub fn resolve_snapshot(meta: &TableMeta, snapshot_id: Option<i64>) -> (r: Result<
    &SnapshotMeta,
    InspectError,
>)
    requires
        meta.valid(),
    ensures
        match snapshot_id {
            Some(id) => match r {
                Ok(s) => has_snapshot(meta.snapshots@, id) && *s == snapshot_with(meta.snapshots@, id),
                Err(e) => !has_snapshot(meta.snapshots@, id) && e == (InspectError::SnapshotNotFound { id }),
            },
            None => match r {
                Ok(s) => meta.current_snapshot_id is Some && *s == snapshot_with(
                    meta.snapshots@,
                    meta.current_snapshot_id->0,
                ),
                Err(e) => meta.current_snapshot_id is None && e == InspectError::NoCurrentSnapshot,
            },
        },
{
    let wanted = match snapshot_id {
        Some(id) => id,
        None => match meta.current_snapshot_id {
            Some(id) => id,
            None => {
                return Err(InspectError::NoCurrentSnapshot);
            },
        },
    };
    match find_snapshot(&meta.snapshots, wanted) {
        Some(i) => {
            proof {
                lemma_snapshot_with(meta.snapshots@, i as int);
            }
            Ok(&meta.snapshots[i])
        },
        None => Err(InspectError::SnapshotNotFound { id: wanted }),
    }
}

/// The text of one partition value: its rendering, or `null` where it is absent.
pub open spec fn partition_value_text(v: Option<Seq<char>>) -> Seq<char> {
    match v {
        Some(t) => t,
        None => "null"@,
    }
}

/// The views of optional texts.
pub open spec fn opt_views(v: Seq<Option<String>>) -> Seq<Option<Seq<char>>> {
    v.map_values(|o: Option<String>| match o {
        Some(s) => Some(s@),
        None => None,
    })
}

/// The partition values of a data file as texts. Each present value comes as its
/// debug rendering; an absent (null) value becomes `null`.
pub fn partition_strings(values: &Vec<Option<String>>) -> (r: Vec<String>)
    ensures
        views(r@) == opt_views(values@).map_values(|v: Option<Seq<char>>| partition_value_text(v)),
{
    let ghost want = opt_views(values@).map_values(|v: Option<Seq<char>>| partition_value_text(v));
    let mut r: Vec<String> = Vec::new();
    let mut i: usize = 0;
    while i < values.len()
        invariant
            i <= values@.len(),
            want == opt_views(values@).map_values(|v: Option<Seq<char>>| partition_value_text(v)),
            views(r@) == want.take(i as int),
        decreases values@.len() - i,
    {
        let t = match &values[i] {
            Some(s) => s.clone(),
            None => owned("null"),
        };
        proof {
            reveal_strlit("null");
        }
        let ghost before = r@;
        assert(want[i as int] == t@);
        r.push(t);
        assert(views(r@) =~= views(before).push(want[i as int]));
        i += 1;
        assert(views(r@) =~= want.take(i as int));
    }
    assert(want.take(i as int) =~= want);
    r
}

/// At most `limit` rows, from the front (`Iterator::take`); all of them without a
/// limit.
pub fn limit_rows<T>(rows: Vec<T>, limit: Option<usize>) -> (r: Vec<T>)
    ensures
        r@ == match limit {
            Some(n) => if n < rows@.len() {
                rows@.take(n as int)
            } else {
                rows@
            },
            None => rows@,
        },
{
    match limit {
        Some(n) => {
            let mut rows = rows;
            if n < rows.len() {
                rows.truncate(n);
            }
            rows
        },
        None => rows,
    }
}

/// What an inspection shows.
#[derive(Debug)]
pub enum InspectPlan {
    /// Run a SQL query over the metadata tables.
    Query(String),
    /// Show one metadata table.
    Table(MetadataTable),
}

/// What an inspection shows: a query when one is given, else the named table.
pub fn plan(inspect_type: Option<MetadataTable>, query: Option<&str>) -> (r: Result<InspectPlan, InspectError>)
    ensures
        match query {
            Some(q) => r matches Ok(InspectPlan::Query(s)) && s@ == q@,
            None => match inspect_type {
                Some(t) => r matches Ok(InspectPlan::Table(u)) && u == t,
                None => r matches Err(InspectError::NothingToInspect),
            },
        },
{
    match query {
        Some(q) => Ok(InspectPlan::Query(owned(q))),
        None => match inspect_type {
            Some(t) => Ok(InspectPlan::Table(t)),
            None => Err(InspectError::NothingToInspect),
        },
    }
}

/// What a metadata table is computed from.
#[derive(Debug, Clone, Copy, PartialEq, Eq, Structural)]
pub enum TableSource {
    /// The table metadata alone.
    Metadata,
    /// The manifest list of one snapshot.
    SnapshotManifests,
    /// The manifest lists of every snapshot.
    AllManifestLists,
    /// The manifest entries of one snapshot.
    SnapshotEntries,
    /// The manifest entries of every snapshot.
    AllSnapshotEntries,
}

/// What each metadata table is computed from.
pub open spec fn table_source(t: MetadataTable) -> TableSource {
    match t {
        MetadataTable::Snapshots | MetadataTable::History | MetadataTable::MetadataLog
        | MetadataTable::Refs => TableSource::Metadata,
        MetadataTable::Manifests => TableSource::SnapshotManifests,
        MetadataTable::AllManifests => TableSource::AllManifestLists,
        MetadataTable::Entries | MetadataTable::Files | MetadataTable::DataFiles
        | MetadataTable::DeleteFiles | MetadataTable::Partitions => TableSource::SnapshotEntries,
        MetadataTable::AllEntries | MetadataTable::AllDataFiles
        | MetadataTable::AllDeleteFiles => TableSource::AllSnapshotEntries,
    }
}

/// What a metadata table is computed from.
pub fn source_of(t: MetadataTable) -> (s: TableSource)
    ensures
        s == table_source(t),
{
    match t {
        MetadataTable::Snapshots | MetadataTable::History | MetadataTable::MetadataLog
        | MetadataTable::Refs => TableSource::Metadata,
        MetadataTable::Manifests => TableSource::SnapshotManifests,
        MetadataTable::AllManifests => TableSource::AllManifestLists,
        MetadataTable::Entries | MetadataTable::Files | MetadataTable::DataFiles
        | MetadataTable::DeleteFiles | MetadataTable::Partitions => TableSource::SnapshotEntries,
        MetadataTable::AllEntries | MetadataTable::AllDataFiles
        | MetadataTable::AllDeleteFiles => TableSource::AllSnapshotEntries,
    }
}

} // verus!
