//! The `list` command: a breadth-first walk over a catalog's namespaces that lists
//! every namespace and table, then an optional glob filter on the full names.
use vstd::prelude::*;

use crate::render::{all_columns, row_view, str_views, Cell, CellView, Tabular};
use crate::text::{join, owned, push_str, u64_text, decimal, views};

verus! {

/// What a listed entry is.
#[derive(Debug, Clone, Copy, PartialEq, Eq, Structural)]
pub enum EntryKind {
    Namespace,
    Table,
}

/// The name of an entry kind.
pub open spec fn entry_kind_text(k: EntryKind) -> Seq<char> {
    match k {
        EntryKind::Namespace => "namespace"@,
        EntryKind::Table => "table"@,
    }
}

impl EntryKind {
    /// The name of this kind.
    pub fn as_str(self) -> (s: &'static str)
        ensures
            s@ == entry_kind_text(self),
    {
        match self {
            EntryKind::Namespace => "namespace",
            EntryKind::Table => "table",
        }
    }
}

/// One listed namespace or table.
#[derive(Debug)]
pub struct ListEntry {
    pub kind: EntryKind,
    pub name: String,
}

impl Tabular for ListEntry {
    open spec fn spec_headers(verbose: bool) -> Seq<Seq<char>> {
        seq!["type"@, "name"@]
    }

    open spec fn spec_row(&self, verbose: bool) -> Seq<CellView> {
        seq![CellView::Str(entry_kind_text(self.kind)), CellView::Str(self.name@)]
    }

    proof fn lemma_row_width(&self, verbose: bool) {
    }

    open spec fn compact_columns() -> Seq<int> {
        all_columns(2)
    }

    proof fn lemma_verbose_shows_compact_columns(&self) {
    }

    fn headers(verbose: bool) -> (h: Vec<&'static str>) {
        let h = vec!["type", "name"];
        assert(str_views(h@) =~= Self::spec_headers(verbose));
        h
    }

    fn row(&self, verbose: bool) -> (r: Vec<Cell>) {
        let r = vec![Cell::Str(owned(self.kind.as_str())), Cell::Str(self.name.clone())];
        assert(row_view(r@) =~= self.spec_row(verbose));
        r
    }
}

/// The full name of a namespace: its parts joined with dots.
pub open spec fn namespace_name(parts: Seq<Seq<char>>) -> Seq<char> {
    join(parts, "."@)
}

/// The full name of a table: its namespace's name, a dot, and its own name.
pub open spec fn table_name(ns: Seq<Seq<char>>, name: Seq<char>) -> Seq<char> {
    namespace_name(ns) + "."@ + name
}

/// The full name of a namespace.
pub fn namespace_text(parts: &Vec<String>) -> (s: String)
    ensures
        s@ == namespace_name(views(parts@)),
{
    crate::text::join_strings(parts.as_slice(), ".")
}

/// The full name of a table.
pub fn table_text(ns: &Vec<String>, name: &str) -> (s: String)
    ensures
        s@ == table_name(views(ns@), name@),
{
    let mut s = namespace_text(ns);
    push_str(&mut s, ".");
    push_str(&mut s, name);
    s
}

/// The texts of namespaces given by their parts.
pub open spec fn namespace_views(v: Seq<Vec<String>>) -> Seq<Seq<Seq<char>>> {
    v.map_values(|p: Vec<String>| views(p@))
}

/// What a listed entry shows: its kind and full name.
pub open spec fn entry_view(e: ListEntry) -> (EntryKind, Seq<char>) {
    (e.kind, e.name@)
}

/// The views of listed entries.
pub open spec fn entry_views(v: Seq<ListEntry>) -> Seq<(EntryKind, Seq<char>)> {
    v.map_values(|e: ListEntry| entry_view(e))
}

/// A table found in a namespace: the namespace's parts and the table's name.
#[derive(Debug)]
pub struct TableName {
    pub namespace: Vec<String>,
    pub name: String,
}

/// The entries of tables, in order.
pub open spec fn table_entries(ts: Seq<TableName>) -> Seq<(EntryKind, Seq<char>)> {
    ts.map_values(|t: TableName| (EntryKind::Table, table_name(views(t.namespace@), t.name@)))
}

/// A breadth-first walk over namespaces. The caller asks for the next namespace,
/// looks up its children and tables in the catalog, and reports them back; the walk
/// queues the children and records every namespace and table it met.
#[derive(Debug)]
pub struct ListWalk {
    queue: Vec<Vec<String>>,
    head: usize,
    entries: Vec<ListEntry>,
}

impl ListWalk {
    /// The namespaces still to visit, front first.
    pub closed spec fn pending(&self) -> Seq<Seq<Seq<char>>> {
        namespace_views(self.queue@).skip(self.head as int)
    }

    /// The entries recorded so far.
    pub closed spec fn listed(&self) -> Seq<(EntryKind, Seq<char>)> {
        entry_views(self.entries@)
    }

    /// The head never passes the end of the queue.
    pub closed spec fn well_formed(&self) -> bool {
        self.head <= self.queue@.len()
    }

    /// A walk that starts from the top-level namespaces.
    pub fn new(roots: Vec<Vec<String>>) -> (w: Self)
        ensures
            w.well_formed(),
            w.pending() == namespace_views(roots@),
            w.listed() == Seq::<(EntryKind, Seq<char>)>::empty(),
    {
        let w = ListWalk { queue: roots, head: 0, entries: Vec::new() };
        assert(namespace_views(w.queue@).skip(0) =~= namespace_views(w.queue@));
        assert(entry_views(w.entries@) =~= Seq::<(EntryKind, Seq<char>)>::empty());
        w
    }

    /// Takes the next namespace to visit and records it; nothing once the walk is done.
    pub fn next_namespace(&mut self) -> (r: Option<Vec<String>>)
        requires
            old(self).well_formed(),
        ensures
            final(self).well_formed(),
            match r {
                Some(ns) => old(self).pending().len() > 0 && views(ns@) == old(self).pending()[0]
                    && final(self).pending() == old(self).pending().drop_first() && final(self).listed()
                    == old(self).listed().push((EntryKind::Namespace, namespace_name(views(ns@)))),
                None => old(self).pending().len() == 0 && final(self).pending() == old(self).pending()
                    && final(self).listed() == old(self).listed(),
            },
    {
        if self.head >= self.queue.len() {
            return None;
        }
        let ns = copy_parts(&self.queue[self.head]);
        let ghost before = self.entries@;
        let name = namespace_text(&ns);
        self.entries.push(ListEntry { kind: EntryKind::Namespace, name });
        self.head = self.head + 1;
        proof {
            assert(namespace_views(self.queue@).skip(self.head as int) =~= namespace_views(self.queue@).skip(
                self.head - 1,
            ).drop_first());
            assert(entry_views(self.entries@) =~= entry_views(before).push(
                (EntryKind::Namespace, namespace_name(views(ns@))),
            ));
        }
        Some(ns)
    }

    /// Records what the catalog gave for the namespace just taken: its child
    /// namespaces are queued, its tables listed. A lookup that failed gives nothing.
    pub fn visited(&mut self, children: Option<Vec<Vec<String>>>, tables: Option<Vec<TableName>>)
        requires
            old(self).well_formed(),
        ensures
            final(self).well_formed(),
            final(self).pending() == old(self).pending() + match children {
                Some(c) => namespace_views(c@),
                None => Seq::empty(),
            },
            final(self).listed() == old(self).listed() + match tables {
                Some(t) => table_entries(t@),
                None => Seq::empty(),
            },
    {
        let ghost q0 = self.queue@;
        match children {
            Some(c) => {
                let mut i: usize = 0;
                while i < c.len()
                    invariant
                        i <= c@.len(),
                        self.head <= self.queue@.len(),
                        self.head == old(self).head,
                        self.entries@ == old(self).entries@,
                        q0 == old(self).queue@,
                        namespace_views(self.queue@) == namespace_views(q0) + namespace_views(c@).take(i as int),
                    decreases c@.len() - i,
                {
                    let ghost before = self.queue@;
                    self.queue.push(copy_parts(&c[i]));
                    proof {
                        assert(namespace_views(self.queue@) =~= namespace_views(before).push(views(c@[i as int]@)));
                        assert(namespace_views(c@).take(i + 1) =~= namespace_views(c@).take(i as int).push(
                            views(c@[i as int]@),
                        ));
                    }
                    i += 1;
                }
                proof {
                    assert(namespace_views(c@).take(i as int) =~= namespace_views(c@));
                    assert(namespace_views(self.queue@).skip(self.head as int) =~= namespace_views(q0).skip(
                        self.head as int,
                    ) + namespace_views(c@));
                }
            },
            None => {
                assert(old(self).pending() + Seq::<Seq<Seq<char>>>::empty() =~= old(self).pending());
            },
        }
        let ghost e0 = self.entries@;
        let ghost q1 = self.queue@;
        let ghost h1 = self.head;
        match tables {
            Some(t) => {
                let mut i: usize = 0;
                while i < t.len()
                    invariant
                        i <= t@.len(),
                        e0 == old(self).entries@,
                        self.queue@ == q1,
                        self.head == h1,
                        entry_views(self.entries@) == entry_views(e0) + table_entries(t@).take(i as int),
                    decreases t@.len() - i,
                {
                    let ghost before = self.entries@;
                    let name = table_text(&t[i].namespace, t[i].name.as_str());
                    self.entries.push(ListEntry { kind: EntryKind::Table, name });
                    proof {
                        assert(entry_views(self.entries@) =~= entry_views(before).push(table_entries(t@)[i as int]));
                        assert(table_entries(t@).take(i + 1) =~= table_entries(t@).take(i as int).push(
                            table_entries(t@)[i as int],
                        ));
                    }
                    i += 1;
                }
                assert(table_entries(t@).take(i as int) =~= table_entries(t@));
            },
            None => {
                assert(entry_views(e0) + Seq::<(EntryKind, Seq<char>)>::empty() =~= entry_views(e0));
            },
        }
    }

    /// Ends the walk, handing out the entries in the order they were met.
    pub fn finish(self) -> (r: Vec<ListEntry>)
        ensures
            entry_views(r@) == self.listed(),
    {
        self.entries
    }
}

/// A copy of a namespace's parts.
pub fn copy_parts(v: &Vec<String>) -> (r: Vec<String>)
    ensures
        views(r@) == views(v@),
{
    let mut r: Vec<String> = Vec::new();
    let mut i: usize = 0;
    while i < v.len()
        invariant
            i <= v@.len(),
            views(r@) == views(v@).take(i as int),
        decreases v@.len() - i,
    {
        let ghost before = r@;
        r.push(v[i].clone());
        assert(views(r@) =~= views(before).push(v@[i as int]@));
        i += 1;
        assert(views(r@) =~= views(v@).take(i as int));
    }
    assert(views(v@).take(i as int) =~= views(v@));
    r
}

// ---------------------------------------------------------------------------
// The glob filter
// ---------------------------------------------------------------------------

#[verifier::external_type_specification]
#[verifier::external_body]
pub struct ExGlobPattern(glob::Pattern);

/// What `glob::Pattern::new` reports for a pattern: nothing when it compiles, else
/// the approximate character position and the message of the syntax error.
pub uninterp spec fn glob_compile_error(pattern: Seq<char>) -> Option<(usize, Seq<char>)>;

/// Whether `glob::Pattern::matches`, with the default options, accepts `name` for the
/// pattern compiled from `pattern`.
pub uninterp spec fn glob_match(pattern: Seq<char>, name: Seq<char>) -> bool;

/// A syntax error in a glob pattern.
#[derive(Debug)]
pub struct GlobError {
    pub pos: usize,
    pub msg: String,
}

/// A compiled glob pattern, with the text it was compiled from.
pub struct GlobPattern {
    source: String,
    compiled: glob::Pattern,
}

impl GlobPattern {
    /// The text the pattern was compiled from.
    pub closed spec fn source(&self) -> Seq<char> {
        self.source@
    }
}

/// Compiles a glob pattern (`glob::Pattern::new`). Success and the error reported are
/// named by `glob_compile_error` of the text; the pattern syntax is not stated.
#[verifier::external_body]
fn compile_glob(pattern: &str) -> (r: Result<GlobPattern, GlobError>)
    ensures
        match r {
            Ok(p) => glob_compile_error(pattern@) is None && p.source() == pattern@,
            Err(e) => glob_compile_error(pattern@) == Some((e.pos, e.msg@)),
        },
{
    match glob::Pattern::new(pattern) {
        Ok(compiled) => Ok(GlobPattern { source: pattern.to_string(), compiled }),
        Err(e) => Err(GlobError { pos: e.pos, msg: e.msg.to_string() }),
    }
}

/// Whether the pattern matches `name` (`glob::Pattern::matches`). The result is named
/// by `glob_match` of the pattern's text and the name; the matching rules are not
/// stated.
#[verifier::external_body]
fn glob_matches(p: &GlobPattern, name: &str) -> (b: bool)
    ensures
        b == glob_match(p.source(), name@),
{
    p.compiled.matches(name)
}

/// Why a listing failed.
#[derive(Debug)]
pub enum ListError {
    /// The filter pattern is not a valid glob.
    Pattern(GlobError),
}

/// The message that a listing error is reported with.
pub open spec fn list_error_text(e: ListError) -> Seq<char> {
    match e {
        ListError::Pattern(g) => "Pattern syntax error near position "@ + decimal(g.pos as nat) + ": "@ + g.msg@,
    }
}

impl ListError {
    /// The message this error is reported with.
    pub fn message(&self) -> (s: String)
        ensures
            s@ == list_error_text(*self),
    {
        match self {
            ListError::Pattern(g) => {
                let mut s = owned("Pattern syntax error near position ");
                let n = u64_text(g.pos as u64);
                push_str(&mut s, n.as_str());
                push_str(&mut s, ": ");
                push_str(&mut s, g.msg.as_str());
                s
            },
        }
    }
}

/// The entries whose full names the pattern matches, in order.
pub open spec fn matching(v: Seq<(EntryKind, Seq<char>)>, pattern: Seq<char>) -> Seq<(EntryKind, Seq<char>)>
    decreases v.len(),
{
    if v.len() == 0 {
        Seq::empty()
    } else if glob_match(pattern, v.last().1) {
        matching(v.drop_last(), pattern).push(v.last())
    } else {
        matching(v.drop_last(), pattern)
    }
}

/// The entries marked to be kept, in order.
pub open spec fn kept(v: Seq<(ListEntry, bool)>) -> Seq<(EntryKind, Seq<char>)>
    decreases v.len(),
{
    if v.len() == 0 {
        Seq::empty()
    } else if v.last().1 {
        kept(v.drop_last()).push(entry_view(v.last().0))
    } else {
        kept(v.drop_last())
    }
}

/// Keeps the entries marked `true`, in order.
pub fn keep_marked(marked: Vec<(ListEntry, bool)>) -> (r: Vec<ListEntry>)
    ensures
        entry_views(r@) == kept(marked@),
{
    let ghost all = marked@;
    let mut rest = marked;
    let mut out: Vec<ListEntry> = Vec::new();
    let n = rest.len();
    let mut i: usize = 0;
    assert(all.skip(0) =~= all);
    while i < n
        invariant
            n == all.len(),
            i <= n,
            rest@ == all.skip(i as int),
            entry_views(out@) == kept(all.take(i as int)),
        decreases n - i,
    {
        let ghost r0 = rest@;
        let (e, keep) = rest.remove(0);
        proof {
            assert(r0[0] == all[i as int]);
            assert(rest@ =~= all.skip(i + 1));
            let t = all.take(i + 1);
            assert(t.drop_last() =~= all.take(i as int));
            assert(t.last() == all[i as int]);
        }
        if keep {
            let ghost before = out@;
            out.push(e);
            assert(entry_views(out@) =~= entry_views(before).push(entry_view(e)));
        }
        i += 1;
    }
    assert(all.take(i as int) =~= all);
    out
}

/// Marking each entry by whether the pattern matches its name, then keeping the
/// marked ones, keeps exactly the matching entries.
proof fn lemma_kept_matching(m: Seq<(ListEntry, bool)>, v: Seq<(EntryKind, Seq<char>)>, p: Seq<char>)
    requires
        m.len() == v.len(),
        forall|k: int| 0 <= k < m.len() ==> entry_view(#[trigger] m[k].0) == v[k] && m[k].1 == glob_match(p, v[k].1),
    ensures
        kept(m) == matching(v, p),
    decreases m.len(),
{
    if m.len() > 0 {
        let mk = m.drop_last();
        let vk = v.drop_last();
        assert forall|k: int| 0 <= k < mk.len() implies entry_view(#[trigger] mk[k].0) == vk[k] && mk[k].1
            == glob_match(p, vk[k].1) by {
            assert(mk[k] == m[k]);
        }
        lemma_kept_matching(mk, vk, p);
        let last = m.len() - 1;
        assert(entry_view(m[last].0) == v[last] && m[last].1 == glob_match(p, v[last].1));
        assert(m.last() == m[last]);
        assert(v.last() == v[last]);
    }
}

/// Keeps the entries whose full names match the pattern, in order; all of them
/// without a pattern. A pattern that does not compile is an error.
pub fn filter_entries(entries: Vec<ListEntry>, pattern: Option<&str>) -> (r: Result<Vec<ListEntry>, ListError>)
    ensures
        match pattern {
            None => r matches Ok(v) && entry_views(v@) == entry_views(entries@),
            Some(p) => match glob_compile_error(p@) {
                None => r matches Ok(v) && entry_views(v@) == matching(entry_views(entries@), p@),
                Some(err) => r matches Err(ListError::Pattern(g)) && (g.pos, g.msg@) == err,
            },
        },
{
    let p = match pattern {
        None => {
            return Ok(entries);
        },
        Some(p) => p,
    };
    let compiled = match compile_glob(p) {
        Ok(c) => c,
        Err(e) => {
            return Err(ListError::Pattern(e));
        },
    };
    let ghost all = entry_views(entries@);
    let mut rest = entries;
    let mut marked: Vec<(ListEntry, bool)> = Vec::new();
    let n = rest.len();
    let mut i: usize = 0;
    proof {
        assert(entry_views(rest@) =~= all.skip(0));
    }
    while i < n
        invariant
            n == all.len(),
            i <= n,
            compiled.source() == p@,
            rest@.len() == n - i,
            entry_views(rest@) == all.skip(i as int),
            marked@.len() == i,
            forall|k: int|
                0 <= k < i ==> entry_view(#[trigger] marked@[k].0) == all[k] && marked@[k].1 == glob_match(
                    p@,
                    all[k].1,
                ),
        decreases n - i,
    {
        let ghost r0 = rest@;
        let e = rest.remove(0);
        proof {
            assert(entry_views(r0)[0] == entry_view(e));
            assert(all.skip(i as int)[0] == all[i as int]);
            assert(rest@ =~= r0.remove(0));
            assert forall|k: int| 0 <= k < rest@.len() implies entry_views(rest@)[k] == all.skip(i + 1)[k] by {
                assert(rest@[k] == r0[k + 1]);
                assert(entry_views(r0)[k + 1] == all.skip(i as int)[k + 1]);
            }
            assert(entry_views(rest@) =~= all.skip(i + 1));
        }
        let keep = glob_matches(&compiled, e.name.as_str());
        let ghost ev = entry_view(e);
        let ghost before = marked@;
        assert(ev == all[i as int]);
        marked.push((e, keep));
        proof {
            assert forall|k: int| 0 <= k < i + 1 implies entry_view(#[trigger] marked@[k].0) == all[k]
                && marked@[k].1 == glob_match(p@, all[k].1) by {
                if k < i {
                    assert(marked@[k] == before[k]);
                }
            }
        }
        i += 1;
    }
    proof {
        lemma_kept_matching(marked@, all, p@);
    }
    Ok(keep_marked(marked))
}

/// The cell that shows the field named `h` of a row.
pub open spec fn list_entry_cell(r: ListEntry, h: Seq<char>) -> CellView {
    if h == "type"@ {
        CellView::Str(entry_kind_text(r.kind))
    } else if h == "name"@ {
        CellView::Str(r.name@)
    } else {
        CellView::Null
    }
}

/// Every cell of a row, in either layout, shows the field that its column's header
/// names.
pub proof fn lemma_list_entry_cells_under_headers(r: ListEntry, verbose: bool)
    ensures
        r.spec_row(verbose).len() == ListEntry::spec_headers(verbose).len(),
        forall|j: int|
            0 <= j < r.spec_row(verbose).len() ==> #[trigger] r.spec_row(verbose)[j] == list_entry_cell(
                r,
                ListEntry::spec_headers(verbose)[j],
            ),
{
    reveal_strlit("name");
    reveal_strlit("type");
    let hs = ListEntry::spec_headers(true);
    assert forall|i: int, j: int| 0 <= i < j < hs.len() implies #[trigger] hs[i] != #[trigger] hs[j] by {
        if hs[i] == hs[j] {
            assert(hs[i].len() == hs[j].len());
            assert(hs[i][0] == hs[j][0]);
            assert(hs[i][hs[i].len() - 1] == hs[j][hs[j].len() - 1]);
        }
    }
}

} // verus!
