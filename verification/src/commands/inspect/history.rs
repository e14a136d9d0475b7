//! The `history` metadata table: when each snapshot became current, and whether
//! it is an ancestor of the current snapshot.
use vstd::prelude::*;

use super::{
    distinct_snapshot_ids, find_snapshot, has_snapshot, lemma_snapshot_with, parent_of, SnapshotLogEntry,
    SnapshotMeta, TableMeta,
};
use crate::render::{all_columns, row_view, CellView, Tabular, Cell};
use vstd::set_lib::{lemma_int_range, lemma_len_subset, set_int_range};

verus! {

/// One row of the `history` table.
#[derive(Debug, Clone, Copy)]
pub struct HistoryRow {
    pub made_current_at: i64,
    pub snapshot_id: i64,
    pub parent_id: Option<i64>,
    pub is_current_ancestor: bool,
}

/// The cell of an optional signed number: the number, or an empty cell.
pub open spec fn opt_int_cell(v: Option<i64>) -> CellView {
    match v {
        Some(n) => CellView::Int(n),
        None => CellView::Null,
    }
}

/// The cell of an optional signed number.
pub fn opt_int(v: Option<i64>) -> (c: Cell)
    ensures
        c@ == opt_int_cell(v),
{
    match v {
        Some(n) => Cell::Int(n),
        None => Cell::Null,
    }
}

impl Tabular for HistoryRow {
    open spec fn spec_headers(verbose: bool) -> Seq<Seq<char>> {
        seq!["made_current_at"@, "snapshot_id"@, "parent_id"@, "is_current_ancestor"@]
    }

    open spec fn spec_row(&self, verbose: bool) -> Seq<CellView> {
        seq![
            CellView::Int(self.made_current_at),
            CellView::Int(self.snapshot_id),
            opt_int_cell(self.parent_id),
            CellView::Bool(self.is_current_ancestor),
        ]
    }

    proof fn lemma_row_width(&self, verbose: bool) {
    }

    open spec fn compact_columns() -> Seq<int> {
        all_columns(4)
    }

    proof fn lemma_verbose_shows_compact_columns(&self) {
    }

    fn headers(verbose: bool) -> (h: Vec<&'static str>) {
        let h = vec!["made_current_at", "snapshot_id", "parent_id", "is_current_ancestor"];
        proof {
            assert(crate::render::str_views(h@) =~= Self::spec_headers(verbose));
        }
        h
    }

    fn row(&self, verbose: bool) -> (r: Vec<Cell>) {
        let r = vec![
            Cell::Int(self.made_current_at),
            Cell::Int(self.snapshot_id),
            opt_int(self.parent_id),
            Cell::Bool(self.is_current_ancestor),
        ];
        assert(row_view(r@) =~= self.spec_row(verbose));
        r
    }
}

/// The snapshot `k` parent links up from `start` (`start` itself for `k == 0`), while
/// the links lead to known snapshots.
pub open spec fn chain(snaps: Seq<SnapshotMeta>, start: i64, k: nat) -> Option<i64>
    decreases k,
{
    if k == 0 {
        Some(start)
    } else {
        match chain(snaps, start, (k - 1) as nat) {
            Some(x) => parent_of(snaps, x),
            None => None,
        }
    }
}

/// Whether snapshot `id` is the current snapshot or one of its ancestors.
pub open spec fn is_current_ancestor(meta: TableMeta, id: i64) -> bool {
    match meta.current_snapshot_id {
        Some(c) => exists|k: nat| #[trigger] chain(meta.snapshots@, c, k) == Some(id),
        None => false,
    }
}

/// The row for one snapshot-log entry.
pub open spec fn history_row(meta: TableMeta, log: SnapshotLogEntry) -> HistoryRow {
    HistoryRow {
        made_current_at: log.timestamp_ms,
        snapshot_id: log.snapshot_id,
        parent_id: parent_of(meta.snapshots@, log.snapshot_id),
        is_current_ancestor: is_current_ancestor(meta, log.snapshot_id),
    }
}

/// Once the chain of parents ends, it stays ended.
proof fn lemma_chain_none(snaps: Seq<SnapshotMeta>, c: i64, m: nat, k: nat)
    requires
        chain(snaps, c, m) is None,
        m <= k,
    ensures
        chain(snaps, c, k) is None,
    decreases k - m,
{
    if k > m {
        lemma_chain_none(snaps, c, m, (k - 1) as nat);
    }
}

/// Two points of the chain that agree agree from there on.
proof fn lemma_chain_shift(snaps: Seq<SnapshotMeta>, c: i64, a: nat, b: nat, t: nat)
    requires
        chain(snaps, c, a) == chain(snaps, c, b),
    ensures
        chain(snaps, c, a + t) == chain(snaps, c, b + t),
    decreases t,
{
    if t > 0 {
        lemma_chain_shift(snaps, c, a, b, (t - 1) as nat);
        assert(chain(snaps, c, a + t) == match chain(snaps, c, (a + t - 1) as nat) {
            Some(x) => parent_of(snaps, x),
            None => None,
        });
        assert(chain(snaps, c, b + t) == match chain(snaps, c, (b + t - 1) as nat) {
            Some(x) => parent_of(snaps, x),
            None => None,
        });
    }
}

/// When step `m + 1` of the chain returns to an earlier step `j`, every step of the
/// chain is one of the first `m + 1`.
proof fn lemma_chain_cycle(snaps: Seq<SnapshotMeta>, c: i64, m: nat, j: nat, k: nat)
    requires
        j <= m,
        chain(snaps, c, m + 1) == chain(snaps, c, j),
    ensures
        exists|i: nat| i <= m && chain(snaps, c, k) == #[trigger] chain(snaps, c, i),
    decreases k,
{
    if k <= m {
        assert(chain(snaps, c, k) == chain(snaps, c, k));
    } else {
        let t = (k - m - 1) as nat;
        lemma_chain_shift(snaps, c, m + 1, j, t);
        let back = (j + t) as nat;
        assert(m + 1 + t == k);
        lemma_chain_cycle(snaps, c, m, j, back);
    }
}

/// Whether `v` holds `x`.
fn holds(v: &Vec<i64>, x: i64) -> (b: bool)
    ensures
        b == v@.contains(x),
{
    let mut i: usize = 0;
    while i < v.len()
        invariant
            i <= v@.len(),
            forall|j: int| 0 <= j < i ==> v@[j] != x,
        decreases v@.len() - i,
    {
        if v[i] == x {
            assert(v@[i as int] == x);
            return true;
        }
        i += 1;
    }
    false
}

/// The current snapshot and all its ancestors, found by following parent links until
/// they end or come back to a snapshot already seen.
pub fn current_ancestors(meta: &TableMeta) -> (v: Vec<i64>)
    requires
        distinct_snapshot_ids(meta.snapshots@),
    ensures
        forall|id: i64| v@.contains(id) <==> is_current_ancestor(*meta, id),
{
    let mut v: Vec<i64> = Vec::new();
    let c = match meta.current_snapshot_id {
        Some(c) => c,
        None => {
            return v;
        },
    };
    let ghost snaps = meta.snapshots@;
    let ghost n = snaps.len() as int;
    v.push(c);
    let mut id = c;
    let ghost mut used: Set<int> = Set::empty();
    proof {
        assert(chain(snaps, c, 0) == Some(c));
        lemma_int_range(0, n);
    }
    loop
        invariant
            snaps == meta.snapshots@,
            n == snaps.len(),
            distinct_snapshot_ids(snaps),
            meta.current_snapshot_id == Some(c),
            v@.len() >= 1,
            forall|j: int| 0 <= j < v@.len() ==> chain(snaps, c, j as nat) == Some(#[trigger] v@[j]),
            forall|a: int, b: int| 0 <= a < b < v@.len() ==> v@[a] != v@[b],
            id == v@.last(),
            used.finite(),
            used.len() == v@.len() - 1,
            used.subset_of(set_int_range(0, n)),
            set_int_range(0, n).finite(),
            set_int_range(0, n).len() == n,
            forall|u: int|
                #[trigger] used.contains(u) ==> exists|j: int|
                    0 <= j < v@.len() - 1 && snaps[u].snapshot_id == #[trigger] v@[j],
        ensures
            forall|j: int| 0 <= j < v@.len() ==> chain(snaps, c, j as nat) == Some(#[trigger] v@[j]),
            forall|k: nat|
                (#[trigger] chain(snaps, c, k)) is Some ==> v@.contains(chain(snaps, c, k)->0),
        decreases n - used.len(),
    {
        let ghost m = (v@.len() - 1) as nat;
        assert(chain(snaps, c, m) == Some(id));
        let found = find_snapshot(&meta.snapshots, id);
        match found {
            None => {
                proof {
                    assert(parent_of(snaps, id) is None);
                    assert(chain(snaps, c, m + 1) is None);
                    assert forall|k: nat| (#[trigger] chain(snaps, c, k)) is Some implies v@.contains(
                        chain(snaps, c, k)->0,
                    ) by {
                        if k > m {
                            lemma_chain_none(snaps, c, m + 1, k);
                        } else {
                            assert(v@[k as int] == chain(snaps, c, k)->0);
                        }
                    }
                }
                break;
            },
            Some(i) => {
                proof {
                    lemma_snapshot_with(snaps, i as int);
                }
                match meta.snapshots[i].parent_id {
                    None => {
                        proof {
                            assert(parent_of(snaps, id) is None);
                            assert(chain(snaps, c, m + 1) is None);
                            assert forall|k: nat| (#[trigger] chain(snaps, c, k)) is Some implies v@.contains(
                                chain(snaps, c, k)->0,
                            ) by {
                                if k > m {
                                    lemma_chain_none(snaps, c, m + 1, k);
                                } else {
                                    assert(v@[k as int] == chain(snaps, c, k)->0);
                                }
                            }
                        }
                        break;
                    },
                    Some(p) => {
                        assert(parent_of(snaps, id) == Some(p));
                        assert(chain(snaps, c, m + 1) == Some(p));
                        if holds(&v, p) {
                            proof {
                                let j = choose|j: int| 0 <= j < v@.len() && v@[j] == p;
                                assert(chain(snaps, c, j as nat) == Some(p));
                                assert forall|k: nat| (#[trigger] chain(snaps, c, k)) is Some implies v@.contains(
                                    chain(snaps, c, k)->0,
                                ) by {
                                    lemma_chain_cycle(snaps, c, m, j as nat, k);
                                    let q = choose|q: nat| q <= m && chain(snaps, c, k) == #[trigger] chain(snaps, c, q);
                                    assert(v@[q as int] == chain(snaps, c, k)->0);
                                }
                            }
                            break;
                        }
                        proof {
                            assert(!used.contains(i as int)) by {
                                if used.contains(i as int) {
                                    let j = choose|j: int| 0 <= j < v@.len() - 1 && snaps[i as int].snapshot_id == #[trigger] v@[j];
                                    assert(v@[j] == v@[m as int]);
                                }
                            }
                            used = used.insert(i as int);
                            assert(used.subset_of(set_int_range(0, n)));
                            lemma_len_subset(used, set_int_range(0, n));
                        }
                        let ghost old_v = v@;
                        v.push(p);
                        id = p;
                        proof {
                            assert forall|j: int| 0 <= j < v@.len() implies chain(snaps, c, j as nat) == Some(
                                #[trigger] v@[j],
                            ) by {
                                if j < old_v.len() {
                                    assert(v@[j] == old_v[j]);
                                }
                            }
                            assert forall|a: int, b: int| 0 <= a < b < v@.len() implies v@[a] != v@[b] by {
                                if b < old_v.len() {
                                    assert(v@[a] == old_v[a] && v@[b] == old_v[b]);
                                } else {
                                    assert(old_v[a] == v@[a]);
                                    assert(old_v.contains(v@[a]));
                                }
                            }
                            assert forall|u: int| #[trigger] used.contains(u) implies exists|j: int|
                                0 <= j < v@.len() - 1 && snaps[u].snapshot_id == #[trigger] v@[j] by {
                                if u == i as int {
                                    assert(v@[m as int] == snaps[u].snapshot_id);
                                } else {
                                    let j = choose|j: int| 0 <= j < old_v.len() - 1 && snaps[u].snapshot_id == #[trigger] old_v[j];
                                    assert(v@[j] == old_v[j]);
                                }
                            }
                        }
                    },
                }
            },
        }
    }
    proof {
        assert forall|x: i64| v@.contains(x) <==> is_current_ancestor(*meta, x) by {
            if v@.contains(x) {
                let j = choose|j: int| 0 <= j < v@.len() && v@[j] == x;
                assert(chain(snaps, c, j as nat) == Some(x));
            }
            if is_current_ancestor(*meta, x) {
                let k = choose|k: nat| #[trigger] chain(meta.snapshots@, c, k) == Some(x);
                assert(chain(snaps, c, k) is Some);
            }
        }
    }
    v
}

/// The parent of snapshot `id`, where that snapshot is known.
fn parent_lookup(meta: &TableMeta, id: i64) -> (r: Option<i64>)
    requires
        distinct_snapshot_ids(meta.snapshots@),
    ensures
        r == parent_of(meta.snapshots@, id),
{
    match find_snapshot(&meta.snapshots, id) {
        Some(i) => {
            proof {
                lemma_snapshot_with(meta.snapshots@, i as int);
            }
            meta.snapshots[i].parent_id
        },
        None => None,
    }
}

/// The `history` table: one row per snapshot-log entry, in log order.
pub fn extract(meta: &TableMeta) -> (rows: Vec<HistoryRow>)
    requires
        distinct_snapshot_ids(meta.snapshots@),
    ensures
        rows@ == meta.snapshot_log@.map_values(|l: SnapshotLogEntry| history_row(*meta, l)),
{
    let ancestors = current_ancestors(meta);
    let ghost want = meta.snapshot_log@.map_values(|l: SnapshotLogEntry| history_row(*meta, l));
    let mut rows: Vec<HistoryRow> = Vec::new();
    let mut i: usize = 0;
    while i < meta.snapshot_log.len()
        invariant
            i <= meta.snapshot_log@.len(),
            distinct_snapshot_ids(meta.snapshots@),
            forall|id: i64| ancestors@.contains(id) <==> is_current_ancestor(*meta, id),
            want == meta.snapshot_log@.map_values(|l: SnapshotLogEntry| history_row(*meta, l)),
            rows@ == want.take(i as int),
        decreases meta.snapshot_log@.len() - i,
    {
        let log = &meta.snapshot_log[i];
        let row = HistoryRow {
            made_current_at: log.timestamp_ms,
            snapshot_id: log.snapshot_id,
            parent_id: parent_lookup(meta, log.snapshot_id),
            is_current_ancestor: holds(&ancestors, log.snapshot_id),
        };
        assert(row == want[i as int]);
        rows.push(row);
        i += 1;
        assert(rows@ =~= want.take(i as int));
    }
    assert(want.take(i as int) =~= want);
    rows
}

/// The cell that shows the field named `h` of a row.
pub open spec fn history_row_cell(r: HistoryRow, h: Seq<char>) -> CellView {
    if h == "made_current_at"@ {
        CellView::Int(r.made_current_at)
    } else if h == "snapshot_id"@ {
        CellView::Int(r.snapshot_id)
    } else if h == "parent_id"@ {
        opt_int_cell(r.parent_id)
    } else if h == "is_current_ancestor"@ {
        CellView::Bool(r.is_current_ancestor)
    } else {
        CellView::Null
    }
}

/// Every cell of a row, in either layout, shows the field that its column's header
/// names.
pub proof fn lemma_history_row_cells_under_headers(r: HistoryRow, verbose: bool)
    ensures
        r.spec_row(verbose).len() == HistoryRow::spec_headers(verbose).len(),
        forall|j: int|
            0 <= j < r.spec_row(verbose).len() ==> #[trigger] r.spec_row(verbose)[j] == history_row_cell(
                r,
                HistoryRow::spec_headers(verbose)[j],
            ),
{
    reveal_strlit("is_current_ancestor");
    reveal_strlit("made_current_at");
    reveal_strlit("parent_id");
    reveal_strlit("snapshot_id");
    let hs = HistoryRow::spec_headers(true);
    assert forall|i: int, j: int| 0 <= i < j < hs.len() implies #[trigger] hs[i] != #[trigger] hs[j] by {
        if hs[i] == hs[j] {
            assert(hs[i].len() == hs[j].len());
            assert(hs[i][0] == hs[j][0]);
            assert(hs[i][hs[i].len() - 1] == hs[j][hs[j].len() - 1]);
        }
    }
}

} // verus!
