//! Command-line vocabulary of the `iceman` front end: identifiers, the metadata
//! tables that can be inspected, and the parsed command line.
pub mod pyiceman;

use vstd::prelude::*;

use crate::text::{
    contains_text, first_occurrence, join, lemma_first_occurrence_from, lemma_split_max_exhaustive,
    lemma_split_max_join, occurs_at, owned, split_max, split_max_spec, views,
};

verus! {

/// A dot-separated identifier such as `namespace.table`.
pub struct Identifier {
    raw: String,
    parts: Vec<String>,
}

/// The parts of a dotted identifier: the text split at every `.`.
pub open spec fn identifier_parts(s: Seq<char>) -> Seq<Seq<char>> {
    split_max_spec(s, "."@, s.len())
}

impl Identifier {
    /// The identifier as written.
    pub closed spec fn raw_view(&self) -> Seq<char> {
        self.raw@
    }

    /// The parts of the identifier.
    pub closed spec fn parts_view(&self) -> Seq<Seq<char>> {
        views(self.parts@)
    }

    /// Parses a dotted identifier.
    pub fn parse(s: &str) -> (id: Self)
        ensures
            id.raw_view() == s@,
            id.parts_view() == identifier_parts(s@),
    {
        let n = crate::text::char_count(s);
        Identifier { raw: owned(s), parts: split_max(s, ".", n) }
    }

    /// The identifier as written.
    pub fn as_str(&self) -> (s: &str)
        ensures
            s@ == self.raw_view(),
    {
        self.raw.as_str()
    }

    /// The parts of the identifier.
    pub fn parts(&self) -> (p: &[String])
        ensures
            views(p@) == self.parts_view(),
    {
        self.parts.as_slice()
    }
}

/// Parsing an identifier loses nothing: its parts joined with `.` give it back,
/// and there is always at least one part.
pub proof fn lemma_identifier_round_trip(s: Seq<char>)
    ensures
        join(identifier_parts(s), "."@) == s,
        identifier_parts(s).len() >= 1,
{
    lemma_split_max_join(s, "."@, s.len());
}

/// The number of dots in a text.
pub open spec fn dot_count(s: Seq<char>) -> nat
    decreases s.len(),
{
    if s.len() == 0 {
        0
    } else {
        dot_count(s.drop_last()) + if s.last() == '.' {
            1nat
        } else {
            0nat
        }
    }
}

/// Counting dots over two texts one after the other.
proof fn lemma_dot_count_add(a: Seq<char>, b: Seq<char>)
    ensures
        dot_count(a + b) == dot_count(a) + dot_count(b),
    decreases b.len(),
{
    if b.len() == 0 {
        assert(a + b =~= a);
    } else {
        lemma_dot_count_add(a, b.drop_last());
        assert((a + b).drop_last() =~= a + b.drop_last());
        assert((a + b).last() == b.last());
    }
}

/// A text without a dot counts none.
proof fn lemma_dot_count_none(s: Seq<char>)
    requires
        forall|j: int| 0 <= j < s.len() ==> s[j] != '.',
    ensures
        dot_count(s) == 0,
    decreases s.len(),
{
    if s.len() > 0 {
        assert forall|j: int| 0 <= j < s.drop_last().len() implies s.drop_last()[j] != '.' by {
            assert(s.drop_last()[j] == s[j]);
        }
        lemma_dot_count_none(s.drop_last());
    }
}

/// A text holds `.` as a substring exactly where it holds a dot character.
proof fn lemma_dot_occurs(s: Seq<char>, j: int)
    requires
        0 <= j < s.len(),
    ensures
        occurs_at(s, "."@, j) <==> s[j] == '.',
{
    reveal_strlit(".");
    if s[j] == '.' {
        assert(s.subrange(j, j + 1) =~= "."@);
    }
    if occurs_at(s, "."@, j) {
        assert(s.subrange(j, j + 1)[0] == s[j]);
    }
}

/// The parts of a text split at every dot number one more than its dots.
proof fn lemma_dot_parts_count(s: Seq<char>, n: nat)
    requires
        n >= s.len(),
    ensures
        split_max_spec(s, "."@, n).len() == dot_count(s) + 1,
    decreases n,
{
    reveal_strlit(".");
    if n == 0 {
        assert(s.len() == 0);
    } else {
        lemma_first_occurrence_from(s, "."@, 0);
        match first_occurrence(s, "."@) {
            Some(i) => {
                let rest = s.skip(i + 1);
                lemma_dot_parts_count(rest, (n - 1) as nat);
                assert forall|j: int| 0 <= j < s.take(i).len() implies s.take(i)[j] != '.' by {
                    lemma_dot_occurs(s, j);
                }
                lemma_dot_count_none(s.take(i));
                lemma_dot_occurs(s, i);
                assert(s =~= s.take(i) + seq!['.'] + rest);
                lemma_dot_count_add(s.take(i), seq!['.']);
                lemma_dot_count_add(s.take(i) + seq!['.'], rest);
                assert(dot_count(seq!['.']) == 1) by {
                    let one = seq!['.'];
                    assert(one.drop_last() =~= Seq::<char>::empty());
                    assert(dot_count(one.drop_last()) == 0);
                    assert(one.last() == '.');
                }
            },
            None => {
                assert forall|j: int| 0 <= j < s.len() implies s[j] != '.' by {
                    lemma_dot_occurs(s, j);
                }
                lemma_dot_count_none(s);
            },
        }
    }
}

/// An identifier has one more part than it has dots, and no part holds a dot.
pub proof fn lemma_identifier_parts(s: Seq<char>)
    ensures
        identifier_parts(s).len() == dot_count(s) + 1,
        forall|i: int, j: int|
            0 <= i < identifier_parts(s).len() && 0 <= j < identifier_parts(s)[i].len() ==> #[trigger] identifier_parts(
                s,
            )[i][j] != '.',
{
    reveal_strlit(".");
    lemma_dot_parts_count(s, s.len());
    lemma_split_max_exhaustive(s, "."@, s.len());
    assert forall|i: int, j: int|
        0 <= i < identifier_parts(s).len() && 0 <= j < identifier_parts(s)[i].len() implies #[trigger] identifier_parts(
            s,
        )[i][j] != '.' by {
        let p = identifier_parts(s)[i];
        assert(!contains_text(p, "."@));
        lemma_dot_occurs(p, j);
    }
}

/// Iceberg metadata tables.
#[derive(Debug, Clone, Copy, PartialEq, Eq, Structural)]
pub enum MetadataTable {
    Snapshots,
    History,
    MetadataLog,
    Refs,
    Manifests,
    AllManifests,
    Entries,
    AllEntries,
    Files,
    DataFiles,
    DeleteFiles,
    AllDataFiles,
    AllDeleteFiles,
    Partitions,
}

/// Every metadata table, in the order they are listed.
pub open spec fn all_tables_spec() -> Seq<MetadataTable> {
    seq![
        MetadataTable::Snapshots,
        MetadataTable::History,
        MetadataTable::MetadataLog,
        MetadataTable::Refs,
        MetadataTable::Manifests,
        MetadataTable::AllManifests,
        MetadataTable::Entries,
        MetadataTable::AllEntries,
        MetadataTable::Files,
        MetadataTable::DataFiles,
        MetadataTable::DeleteFiles,
        MetadataTable::AllDataFiles,
        MetadataTable::AllDeleteFiles,
        MetadataTable::Partitions,
    ]
}

/// The SQL view name of each metadata table.
pub open spec fn sql_name_spec(t: MetadataTable) -> Seq<char> {
    match t {
        MetadataTable::Snapshots => "snapshots"@,
        MetadataTable::History => "history"@,
        MetadataTable::MetadataLog => "metadata_log_entries"@,
        MetadataTable::Refs => "refs"@,
        MetadataTable::Manifests => "manifests"@,
        MetadataTable::AllManifests => "all_manifests"@,
        MetadataTable::Entries => "entries"@,
        MetadataTable::AllEntries => "all_entries"@,
        MetadataTable::Files => "files"@,
        MetadataTable::DataFiles => "data_files"@,
        MetadataTable::DeleteFiles => "delete_files"@,
        MetadataTable::AllDataFiles => "all_data_files"@,
        MetadataTable::AllDeleteFiles => "all_delete_files"@,
        MetadataTable::Partitions => "partitions"@,
    }
}

/// The view name of every metadata table is its documented name.
pub proof fn lemma_sql_name_values()
    ensures
        sql_name_spec(MetadataTable::Snapshots) == "snapshots"@,
        sql_name_spec(MetadataTable::History) == "history"@,
        sql_name_spec(MetadataTable::MetadataLog) == "metadata_log_entries"@,
        sql_name_spec(MetadataTable::Refs) == "refs"@,
        sql_name_spec(MetadataTable::Manifests) == "manifests"@,
        sql_name_spec(MetadataTable::AllManifests) == "all_manifests"@,
        sql_name_spec(MetadataTable::Entries) == "entries"@,
        sql_name_spec(MetadataTable::AllEntries) == "all_entries"@,
        sql_name_spec(MetadataTable::Files) == "files"@,
        sql_name_spec(MetadataTable::DataFiles) == "data_files"@,
        sql_name_spec(MetadataTable::DeleteFiles) == "delete_files"@,
        sql_name_spec(MetadataTable::AllDataFiles) == "all_data_files"@,
        sql_name_spec(MetadataTable::AllDeleteFiles) == "all_delete_files"@,
        sql_name_spec(MetadataTable::Partitions) == "partitions"@,
{
}

/// A character of a SQL view name: a lowercase ASCII letter or `_`.
pub open spec fn view_name_char(c: char) -> bool {
    ('a' <= c && c <= 'z') || c == '_'
}

/// The SQL view names tell the tables apart, and each is made of lowercase ASCII
/// letters and `_` only.
pub proof fn lemma_sql_names(a: MetadataTable, b: MetadataTable)
    ensures
        a != b ==> sql_name_spec(a) != sql_name_spec(b),
        forall|i: int| 0 <= i < sql_name_spec(a).len() ==> view_name_char(#[trigger] sql_name_spec(a)[i]),
{
    reveal_strlit("snapshots");
    reveal_strlit("history");
    reveal_strlit("metadata_log_entries");
    reveal_strlit("refs");
    reveal_strlit("manifests");
    reveal_strlit("all_manifests");
    reveal_strlit("entries");
    reveal_strlit("all_entries");
    reveal_strlit("files");
    reveal_strlit("data_files");
    reveal_strlit("delete_files");
    reveal_strlit("all_data_files");
    reveal_strlit("all_delete_files");
    reveal_strlit("partitions");
    if a != b && sql_name_spec(a) == sql_name_spec(b) {
        let x = sql_name_spec(a);
        let y = sql_name_spec(b);
        assert(x.len() == y.len());
        assert(x[0] == y[0]);
        assert(x[x.len() - 1] == y[y.len() - 1]);
        assert(x[4] == y[4]);
        assert(false);
    }
}

/// The tables read from table metadata alone, which need no snapshot.
pub open spec fn needs_snapshot(t: MetadataTable) -> bool {
    !(t == MetadataTable::Snapshots || t == MetadataTable::History || t
        == MetadataTable::MetadataLog || t == MetadataTable::Refs)
}

impl MetadataTable {
    /// Every metadata table, in the order they are listed.
    pub fn all_tables() -> (v: Vec<MetadataTable>)
        ensures
            v@ == all_tables_spec(),
    {
        let v = vec![
            MetadataTable::Snapshots,
            MetadataTable::History,
            MetadataTable::MetadataLog,
            MetadataTable::Refs,
            MetadataTable::Manifests,
            MetadataTable::AllManifests,
            MetadataTable::Entries,
            MetadataTable::AllEntries,
            MetadataTable::Files,
            MetadataTable::DataFiles,
            MetadataTable::DeleteFiles,
            MetadataTable::AllDataFiles,
            MetadataTable::AllDeleteFiles,
            MetadataTable::Partitions,
        ];
        assert(v@ =~= all_tables_spec());
        v
    }

    /// The SQL view name of this table.
    pub fn sql_name(self) -> (s: &'static str)
        ensures
            s@ == sql_name_spec(self),
    {
        match self {
            MetadataTable::Snapshots => "snapshots",
            MetadataTable::History => "history",
            MetadataTable::MetadataLog => "metadata_log_entries",
            MetadataTable::Refs => "refs",
            MetadataTable::Manifests => "manifests",
            MetadataTable::AllManifests => "all_manifests",
            MetadataTable::Entries => "entries",
            MetadataTable::AllEntries => "all_entries",
            MetadataTable::Files => "files",
            MetadataTable::DataFiles => "data_files",
            MetadataTable::DeleteFiles => "delete_files",
            MetadataTable::AllDataFiles => "all_data_files",
            MetadataTable::AllDeleteFiles => "all_delete_files",
            MetadataTable::Partitions => "partitions",
        }
    }

    /// Whether reading this table needs a snapshot: all but `snapshots`, `history`,
    /// `metadata_log_entries` and `refs` do.
    pub fn requires_snapshot(self) -> (b: bool)
        ensures
            b == needs_snapshot(self),
    {
        match self {
            MetadataTable::Snapshots | MetadataTable::History | MetadataTable::MetadataLog
            | MetadataTable::Refs => false,
            _ => true,
        }
    }
}

/// Output format.
#[derive(Debug, Clone, Copy, PartialEq, Eq, Structural)]
pub enum OutputFormat {
    Text,
    Json,
}

/// Entity type to describe.
#[derive(Debug, Clone, Copy, PartialEq, Eq, Structural)]
pub enum EntityType {
    Any,
    Namespace,
    Table,
}

/// The `iceman` command line.
pub struct IcemanCli {
    /// Path to config file (overrides default).
    pub config: Option<String>,
    /// Catalog name from config.
    pub catalog: Option<String>,
    /// Verbose output.
    pub verbose: bool,
    /// Output format.
    pub output: OutputFormat,
    /// Catalog URI (overrides config).
    pub uri: Option<String>,
    /// Catalog credential (overrides config).
    pub credential: Option<String>,
    /// Warehouse location (overrides config).
    pub warehouse: Option<String>,
    pub command: Command,
}

/// The `iceman` subcommands.
pub enum Command {
    /// List namespaces and tables; an optional glob pattern filters by full identifier.
    List { pattern: Option<String> },
    /// Describe a namespace or table.
    Describe { identifier: String, entity: EntityType },
    /// Inspect table metadata.
    Inspect {
        identifier: String,
        table: Option<MetadataTable>,
        query: Option<String>,
        snapshot_id: Option<i64>,
        limit: Option<usize>,
    },
    /// Manage the bundled skill.
    Skill { action: SkillAction },
    /// Print version and git ref.
    Version,
}

/// Skill management actions.
pub enum SkillAction {
    /// Install the bundled skill.
    Install { location: Option<String>, user: bool, force: bool },
}

} // verus!
