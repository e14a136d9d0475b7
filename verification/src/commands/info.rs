//! The `info` command: reference topics about Iceberg metadata tables, cut as
//! sections out of the bundled reference texts.
use vstd::prelude::*;

use super::info_text::{METADATA_MD, SCHEMAS_MD};
use crate::cli::OutputFormat;
use crate::error::{concat3, concat5};
use super::inspect::legacy::{char_bytes, lemma_take_increasing, lemma_take_step, utf8_len};
use crate::json::{json_quote, json_string_array, json_string_text};
use crate::render::str_views;
use crate::text::{
    ascii_lower, is_whitespace, trim_start,
    ascii_lowercase, chars_of, find_from, first_occurrence, join, matches_at, occurs_at, owned,
    pad_right_spec, push_char, push_padded_right, push_str, replace, replace_all, skip_chars,
    string_of, str_eq, take_chars, to_ascii_lowercase, trim, trim_end, trim_end_str, trim_str,
};

verus! {

/// Which reference text a topic is cut from.
#[derive(Debug, Clone, Copy, PartialEq, Eq, Structural)]
pub enum Source {
    Metadata,
    Schemas,
}

/// A reference topic: its name, aliases, one-line description, source text and the
/// sections of that text it consists of.
pub struct Topic {
    pub name: &'static str,
    pub aliases: Vec<&'static str>,
    pub blurb: &'static str,
    pub source: Source,
    pub sections: Vec<&'static str>,
}

/// What a topic holds.
pub struct TopicView {
    pub name: Seq<char>,
    pub aliases: Seq<Seq<char>>,
    pub blurb: Seq<char>,
    pub source: Source,
    pub sections: Seq<Seq<char>>,
}

impl Topic {
    /// What this topic holds.
    pub open spec fn view(self) -> TopicView {
        TopicView {
            name: self.name@,
            aliases: str_views(self.aliases@),
            blurb: self.blurb@,
            source: self.source,
            sections: str_views(self.sections@),
        }
    }
}

/// What each topic of a list holds.
pub open spec fn topic_views(v: Seq<Topic>) -> Seq<TopicView> {
    v.map_values(|t: Topic| t.view())
}

/// The topics, in the order they are listed.
pub open spec fn topics_spec() -> Seq<TopicView> {
    seq![
        TopicView {
            name: "metadata"@,
            aliases: seq!["tables"@, "overview"@, "metadata-tables"@],
            blurb: "Inventory of Iceberg metadata tables and a quick task-to-table reference."@,
            source: Source::Metadata,
            sections: seq!["Metadata Tables"@, "Quick Reference by Task"@],
        },
        TopicView {
            name: "status-codes"@,
            aliases: seq!["status"@],
            blurb: "Status codes used in entries / all_entries."@,
            source: Source::Metadata,
            sections: seq!["Status Codes"@],
        },
        TopicView {
            name: "content-types"@,
            aliases: seq!["content"@],
            blurb: "Manifest content type codes (data vs delete)."@,
            source: Source::Metadata,
            sections: seq!["Content Type Codes"@],
        },
        TopicView {
            name: "history"@,
            aliases: seq![],
            blurb: "Schema for the history metadata table (commit ancestry)."@,
            source: Source::Schemas,
            sections: seq!["history"@],
        },
        TopicView {
            name: "metadata-log"@,
            aliases: seq!["metadata_log_entries"@, "metadata-log-entries"@],
            blurb: "Schema for metadata_log_entries (metadata.json file generations)."@,
            source: Source::Schemas,
            sections: seq!["metadata_log_entries"@],
        },
        TopicView {
            name: "snapshots"@,
            aliases: seq![],
            blurb: "Schema for the snapshots metadata table."@,
            source: Source::Schemas,
            sections: seq!["snapshots"@],
        },
        TopicView {
            name: "entries"@,
            aliases: seq!["all-entries"@, "all_entries"@],
            blurb: "Schema for entries / all_entries (per-file operations)."@,
            source: Source::Schemas,
            sections: seq!["entries"@],
        },
        TopicView {
            name: "files"@,
            aliases: seq!["data-files"@, "delete-files"@],
            blurb: "Schema for the files table (active data + delete files)."@,
            source: Source::Schemas,
            sections: seq!["files"@],
        },
        TopicView {
            name: "manifests"@,
            aliases: seq!["all-manifests"@, "all_manifests"@],
            blurb: "Schema for manifests / all_manifests."@,
            source: Source::Schemas,
            sections: seq!["manifests"@],
        },
        TopicView {
            name: "partitions"@,
            aliases: seq![],
            blurb: "Schema for the partitions metadata table (per-partition stats)."@,
            source: Source::Schemas,
            sections: seq!["partitions"@],
        },
        TopicView {
            name: "all-data-files"@,
            aliases: seq!["all-delete-files"@, "all_data_files"@, "all_delete_files"@],
            blurb: "Schema for all_data_files / all_delete_files (cross-snapshot files)."@,
            source: Source::Schemas,
            sections: seq!["all_data_files"@],
        },
        TopicView {
            name: "refs"@,
            aliases: seq![],
            blurb: "Schema for the refs metadata table (branches and tags)."@,
            source: Source::Schemas,
            sections: seq!["refs"@],
        },
    ]
}

/// One topic built from its parts.
fn topic(
    name: &'static str,
    aliases: Vec<&'static str>,
    blurb: &'static str,
    source: Source,
    sections: Vec<&'static str>,
) -> (t: Topic)
    ensures
        t.name == name,
        t.aliases == aliases,
        t.blurb == blurb,
        t.source == source,
        t.sections == sections,
{
    Topic { name, aliases, blurb, source, sections }
}

/// The topics, in the order they are listed.
pub fn topics() -> (v: Vec<Topic>)
    ensures
        topic_views(v@) == topics_spec(),
{
    let v = vec![
        topic(
            "metadata",
            vec!["tables", "overview", "metadata-tables"],
            "Inventory of Iceberg metadata tables and a quick task-to-table reference.",
            Source::Metadata,
            vec!["Metadata Tables", "Quick Reference by Task"],
        ),
        topic(
            "status-codes",
            vec!["status"],
            "Status codes used in entries / all_entries.",
            Source::Metadata,
            vec!["Status Codes"],
        ),
        topic(
            "content-types",
            vec!["content"],
            "Manifest content type codes (data vs delete).",
            Source::Metadata,
            vec!["Content Type Codes"],
        ),
        topic(
            "history",
            vec![],
            "Schema for the history metadata table (commit ancestry).",
            Source::Schemas,
            vec!["history"],
        ),
        topic(
            "metadata-log",
            vec!["metadata_log_entries", "metadata-log-entries"],
            "Schema for metadata_log_entries (metadata.json file generations).",
            Source::Schemas,
            vec!["metadata_log_entries"],
        ),
        topic(
            "snapshots",
            vec![],
            "Schema for the snapshots metadata table.",
            Source::Schemas,
            vec!["snapshots"],
        ),
        topic(
            "entries",
            vec!["all-entries", "all_entries"],
            "Schema for entries / all_entries (per-file operations).",
            Source::Schemas,
            vec!["entries"],
        ),
        topic(
            "files",
            vec!["data-files", "delete-files"],
            "Schema for the files table (active data + delete files).",
            Source::Schemas,
            vec!["files"],
        ),
        topic(
            "manifests",
            vec!["all-manifests", "all_manifests"],
            "Schema for manifests / all_manifests.",
            Source::Schemas,
            vec!["manifests"],
        ),
        topic(
            "partitions",
            vec![],
            "Schema for the partitions metadata table (per-partition stats).",
            Source::Schemas,
            vec!["partitions"],
        ),
        topic(
            "all-data-files",
            vec!["all-delete-files", "all_data_files", "all_delete_files"],
            "Schema for all_data_files / all_delete_files (cross-snapshot files).",
            Source::Schemas,
            vec!["all_data_files"],
        ),
        topic(
            "refs",
            vec![],
            "Schema for the refs metadata table (branches and tags).",
            Source::Schemas,
            vec!["refs"],
        ),
    ];
    assert(topic_views(v@) =~= topics_spec()) by {
        assert forall|i: int| 0 <= i < 12 implies #[trigger] topic_views(v@)[i] == topics_spec()[i] by {
            assert(topic_views(v@)[i].aliases =~= topics_spec()[i].aliases);
            assert(topic_views(v@)[i].sections =~= topics_spec()[i].sections);
        }
    }
    v
}

// ---------------------------------------------------------------------------
// Topic lookup
// ---------------------------------------------------------------------------

/// A topic name or query in canonical form: trimmed, ASCII-lowercased, `_` as `-`.
pub open spec fn normalize_spec(s: Seq<char>) -> Seq<char> {
    replace_all(ascii_lowercase(trim(s)), "_"@, "-"@)
}

/// Puts a topic name or query into canonical form.
pub fn normalize(s: &str) -> (r: String)
    ensures
        r@ == normalize_spec(s@),
{
    proof {
        reveal_strlit("_");
    }
    let t = trim_str(s);
    let l = to_ascii_lowercase(t.as_str());
    replace(l.as_str(), "_", "-")
}

/// A character as topic lookup sees it: ASCII letters in lowercase, `_` as `-`.
pub open spec fn fold_char(c: char) -> char {
    if c == '_' {
        '-'
    } else {
        ascii_lower(c)
    }
}

/// Two queries that differ at most in ASCII case and in `_` against `-`.
pub open spec fn same_folded(a: Seq<char>, b: Seq<char>) -> bool {
    a.len() == b.len() && forall|i: int| 0 <= i < a.len() ==> fold_char(#[trigger] a[i]) == fold_char(b[i])
}

/// Replacing `_` by `-` character by character.
proof fn lemma_replace_underscores(x: Seq<char>)
    ensures
        replace_all(x, "_"@, "-"@) == x.map_values(|c: char| if c == '_' { '-' } else { c }),
    decreases x.len(),
{
    reveal_strlit("_");
    reveal_strlit("-");
    let f = |c: char| if c == '_' { '-' } else { c };
    if x.len() == 0 {
        assert(x.map_values(f) =~= x);
    } else {
        lemma_replace_underscores(x.skip(1));
        assert(x.skip(1).map_values(f) =~= x.map_values(f).skip(1));
        if x.take(1) == "_"@ {
            assert(x[0] == x.take(1)[0]);
            assert(x.map_values(f) =~= "-"@ + x.skip(1).map_values(f));
        } else {
            assert(x[0] != '_') by {
                if x[0] == '_' {
                    assert(x.take(1) =~= "_"@);
                }
            }
            assert(x.map_values(f) =~= seq![x[0]] + x.skip(1).map_values(f));
        }
    }
}

/// The canonical form of a query is its trimmed text with every character folded.
proof fn lemma_normalize_folds(s: Seq<char>)
    ensures
        normalize_spec(s) == trim(s).map_values(|c: char| fold_char(c)),
{
    let t = trim(s);
    let l = ascii_lowercase(t);
    lemma_replace_underscores(l);
    let g = |c: char| if c == '_' { '-' } else { c };
    assert forall|i: int| 0 <= i < t.len() implies l.map_values(g)[i] == fold_char(t[i]) by {
        let c = t[i];
        assert(l[i] == ascii_lower(c));
        if c == '_' {
        } else if 'A' <= c && c <= 'Z' {
            assert(ascii_lower(c) != '_');
        }
    }
    assert(l.map_values(g) =~= t.map_values(|c: char| fold_char(c)));
}

/// Folding keeps whitespace and non-whitespace apart.
proof fn lemma_fold_whitespace(a: char, b: char)
    requires
        fold_char(a) == fold_char(b),
    ensures
        is_whitespace(a) == is_whitespace(b),
{
    if is_whitespace(a) && !is_whitespace(b) {
        assert(fold_char(a) == a);
    }
    if is_whitespace(b) && !is_whitespace(a) {
        assert(fold_char(b) == b);
    }
}

/// Trimming the end keeps two folded-equal texts folded-equal.
proof fn lemma_trim_end_folded(a: Seq<char>, b: Seq<char>)
    requires
        same_folded(a, b),
    ensures
        same_folded(trim_end(a), trim_end(b)),
    decreases a.len(),
{
    if a.len() > 0 {
        lemma_fold_whitespace(a.last(), b.last());
        if is_whitespace(a.last()) {
            assert(same_folded(a.drop_last(), b.drop_last())) by {
                assert forall|i: int| 0 <= i < a.drop_last().len() implies fold_char(#[trigger] a.drop_last()[i])
                    == fold_char(b.drop_last()[i]) by {
                    assert(a.drop_last()[i] == a[i]);
                    assert(b.drop_last()[i] == b[i]);
                }
            }
            lemma_trim_end_folded(a.drop_last(), b.drop_last());
        }
    }
}

/// Trimming the start keeps two folded-equal texts folded-equal.
proof fn lemma_trim_start_folded(a: Seq<char>, b: Seq<char>)
    requires
        same_folded(a, b),
    ensures
        same_folded(trim_start(a), trim_start(b)),
    decreases a.len(),
{
    if a.len() > 0 {
        lemma_fold_whitespace(a[0], b[0]);
        if is_whitespace(a[0]) {
            assert(same_folded(a.drop_first(), b.drop_first())) by {
                assert forall|i: int| 0 <= i < a.drop_first().len() implies fold_char(
                    #[trigger] a.drop_first()[i],
                ) == fold_char(b.drop_first()[i]) by {
                    assert(a.drop_first()[i] == a[i + 1]);
                    assert(b.drop_first()[i] == b[i + 1]);
                }
            }
            lemma_trim_start_folded(a.drop_first(), b.drop_first());
        }
    }
}

/// Topic lookup ignores ASCII case and does not tell `_` from `-`: two queries that
/// differ, character by character, only so have the same canonical form and find the
/// same topic.
pub proof fn lemma_lookup_ignores_case_and_separator(a: Seq<char>, b: Seq<char>)
    requires
        same_folded(a, b),
    ensures
        normalize_spec(a) == normalize_spec(b),
        first_topic_from(topics_spec(), normalize_spec(a), 0) == first_topic_from(
            topics_spec(),
            normalize_spec(b),
            0,
        ),
{
    lemma_trim_end_folded(a, b);
    lemma_trim_start_folded(trim_end(a), trim_end(b));
    lemma_normalize_folds(a);
    lemma_normalize_folds(b);
    let ta = trim(a);
    let tb = trim(b);
    assert(ta.map_values(|c: char| fold_char(c)) =~= tb.map_values(|c: char| fold_char(c)));
}

/// Trimming the end leaves a prefix that is empty or ends in a non-space.
proof fn lemma_trim_end_shape(s: Seq<char>)
    ensures
        trim_end(s).len() <= s.len(),
        trim_end(s) == s.take(trim_end(s).len() as int),
        trim_end(s).len() == 0 || !is_whitespace(trim_end(s).last()),
    decreases s.len(),
{
    if s.len() > 0 && is_whitespace(s.last()) {
        lemma_trim_end_shape(s.drop_last());
        assert(s.drop_last().take(trim_end(s).len() as int) =~= s.take(trim_end(s).len() as int));
    } else {
        assert(s.take(s.len() as int) =~= s);
    }
}

/// Trimming the start leaves a suffix that is empty or starts with a non-space.
proof fn lemma_trim_start_shape(s: Seq<char>)
    ensures
        trim_start(s).len() <= s.len(),
        trim_start(s) == s.skip(s.len() - trim_start(s).len()),
        trim_start(s).len() == 0 || !is_whitespace(trim_start(s)[0]),
    decreases s.len(),
{
    if s.len() > 0 && is_whitespace(s[0]) {
        lemma_trim_start_shape(s.drop_first());
        assert(s.drop_first().skip(s.len() - 1 - trim_start(s).len()) =~= s.skip(s.len() - trim_start(s).len()));
    } else {
        assert(s.skip(0) =~= s);
    }
}

/// A text that neither starts nor ends with white space is its own trimmed form.
proof fn lemma_trim_untouched(x: Seq<char>)
    requires
        x.len() == 0 || (!is_whitespace(x[0]) && !is_whitespace(x.last())),
    ensures
        trim(x) == x,
{
    assert(trim_end(x) == x);
}

/// Folding twice is folding once, and folding keeps white space apart.
proof fn lemma_fold_twice(c: char)
    ensures
        fold_char(fold_char(c)) == fold_char(c),
        is_whitespace(fold_char(c)) == is_whitespace(c),
{
    lemma_fold_whitespace(c, fold_char(c));
}

/// Putting a query into canonical form twice changes nothing more.
pub proof fn lemma_normalize_idempotent(s: Seq<char>)
    ensures
        normalize_spec(normalize_spec(s)) == normalize_spec(s),
{
    let f = |c: char| fold_char(c);
    let u = trim_end(s);
    let t = trim(s);
    lemma_trim_end_shape(s);
    lemma_trim_start_shape(u);
    lemma_normalize_folds(s);
    let x = t.map_values(f);
    if t.len() > 0 {
        assert(t.last() == u[u.len() - 1]);
        lemma_fold_twice(t[0]);
        lemma_fold_twice(t.last());
        assert(x[0] == fold_char(t[0]));
        assert(x.last() == fold_char(t.last()));
    }
    lemma_trim_untouched(x);
    lemma_normalize_folds(x);
    assert forall|i: int| 0 <= i < x.len() implies #[trigger] x.map_values(f)[i] == x[i] by {
        lemma_fold_twice(t[i]);
    }
    assert(x.map_values(f) =~= x);
}

/// Looking up a query and looking up its canonical form find the same topic.
pub proof fn lemma_lookup_of_normalized(q: Seq<char>)
    ensures
        first_topic_from(topics_spec(), normalize_spec(normalize_spec(q)), 0) == first_topic_from(
            topics_spec(),
            normalize_spec(q),
            0,
        ),
{
    lemma_normalize_idempotent(q);
}

/// The name and the aliases of a topic.
pub open spec fn topic_names(t: TopicView) -> Seq<Seq<char>> {
    seq![t.name] + t.aliases
}

/// The topic whose names have length `n` and first character `c`; every name of the
/// topics has a pair that no other topic's names share.
spec fn topic_of_signature(n: nat, c: char) -> int {
    if n == 4 && c == 'r' {
        11
    } else if n == 5 && c == 'f' {
        7
    } else if n == 6 && c == 's' {
        1
    } else if n == 6 && c == 't' {
        0
    } else if n == 7 && c == 'c' {
        2
    } else if n == 7 && c == 'e' {
        6
    } else if n == 7 && c == 'h' {
        3
    } else if n == 8 && c == 'm' {
        0
    } else if n == 8 && c == 'o' {
        0
    } else if n == 9 && c == 'm' {
        8
    } else if n == 9 && c == 's' {
        5
    } else if n == 10 && c == 'd' {
        7
    } else if n == 10 && c == 'p' {
        9
    } else if n == 11 && c == 'a' {
        6
    } else if n == 12 && c == 'd' {
        7
    } else if n == 12 && c == 'm' {
        4
    } else if n == 12 && c == 's' {
        1
    } else if n == 13 && c == 'a' {
        8
    } else if n == 13 && c == 'c' {
        2
    } else if n == 14 && c == 'a' {
        10
    } else if n == 15 && c == 'm' {
        0
    } else if n == 16 && c == 'a' {
        10
    } else if n == 20 && c == 'm' {
        4
    } else {
        -1
    }
}

/// A text of lowercase letters, `-` and `_` that starts with a letter.
spec fn plain_name(x: Seq<char>) -> bool {
    &&& x.len() > 0
    &&& 'a' <= x[0] && x[0] <= 'z'
    &&& forall|j: int| 0 <= j < x.len() ==> ('a' <= #[trigger] x[j] && x[j] <= 'z') || x[j] == '-' || x[j] == '_'
}

/// Every name of every topic is plain and tells its topic by its signature.
proof fn lemma_topic_signatures(m: int, j: int)
    requires
        0 <= m < topics_spec().len(),
        0 <= j < topic_names(topics_spec()[m]).len(),
    ensures
        plain_name(topic_names(topics_spec()[m])[j]),
        topic_of_signature(
            topic_names(topics_spec()[m])[j].len(),
            topic_names(topics_spec()[m])[j][0],
        ) == m,
{
    reveal_strlit("all-data-files");
    reveal_strlit("all-delete-files");
    reveal_strlit("all-entries");
    reveal_strlit("all-manifests");
    reveal_strlit("all_data_files");
    reveal_strlit("all_delete_files");
    reveal_strlit("all_entries");
    reveal_strlit("all_manifests");
    reveal_strlit("content");
    reveal_strlit("content-types");
    reveal_strlit("data-files");
    reveal_strlit("delete-files");
    reveal_strlit("entries");
    reveal_strlit("files");
    reveal_strlit("history");
    reveal_strlit("manifests");
    reveal_strlit("metadata");
    reveal_strlit("metadata-log");
    reveal_strlit("metadata-log-entries");
    reveal_strlit("metadata-tables");
    reveal_strlit("metadata_log_entries");
    reveal_strlit("overview");
    reveal_strlit("partitions");
    reveal_strlit("refs");
    reveal_strlit("snapshots");
    reveal_strlit("status");
    reveal_strlit("status-codes");
    reveal_strlit("tables");
}

/// Putting a plain name into canonical form keeps its length and first character.
proof fn lemma_plain_canon(x: Seq<char>)
    requires
        plain_name(x),
    ensures
        normalize_spec(x).len() == x.len(),
        normalize_spec(x)[0] == x[0],
{
    lemma_normalize_folds(x);
    assert(!is_whitespace(x[0]));
    assert(!is_whitespace(x[x.len() - 1]));
    lemma_trim_untouched(x);
}

/// From `from` on, the first topic answering to the canonical form of a name of
/// topic `i` is topic `i`.
proof fn lemma_name_resolves_from(i: int, k: int, from: int)
    requires
        0 <= i < topics_spec().len(),
        0 <= k < topic_names(topics_spec()[i]).len(),
        0 <= from <= i,
    ensures
        first_topic_from(topics_spec(), normalize_spec(topic_names(topics_spec()[i])[k]), from) == Some(i),
    decreases i - from,
{
    let ts = topics_spec();
    let y = topic_names(ts[i])[k];
    let q = normalize_spec(y);
    if from == i {
        if k == 0 {
            assert(y == ts[i].name);
        } else {
            assert(y == ts[i].aliases[k - 1]);
        }
        assert(topic_matches(ts[i], q));
    } else {
        lemma_topic_signatures(i, k);
        lemma_plain_canon(y);
        let t = ts[from];
        assert forall|j: int| 0 <= j < topic_names(t).len() implies normalize_spec(#[trigger] topic_names(t)[j]) != q by {
            lemma_topic_signatures(from, j);
            lemma_plain_canon(topic_names(t)[j]);
        }
        assert(normalize_spec(t.name) != q) by {
            assert(topic_names(t)[0] == t.name);
        }
        assert forall|j: int| 0 <= j < t.aliases.len() implies normalize_spec(#[trigger] t.aliases[j]) != q by {
            assert(topic_names(t)[j + 1] == t.aliases[j]);
        }
        assert(!topic_matches(t, q));
        lemma_name_resolves_from(i, k, from + 1);
    }
}

/// Every topic is found by its own name and by each of its aliases.
pub proof fn lemma_names_resolve_to_their_topic(i: int, k: int)
    requires
        0 <= i < topics_spec().len(),
        0 <= k < topic_names(topics_spec()[i]).len(),
    ensures
        first_topic_from(topics_spec(), normalize_spec(topic_names(topics_spec()[i])[k]), 0) == Some(i),
{
    lemma_name_resolves_from(i, k, 0);
}

/// Whether a topic answers to the canonical query `q`, by name or by an alias.
pub open spec fn topic_matches(t: TopicView, q: Seq<char>) -> bool {
    normalize_spec(t.name) == q || exists|j: int|
        0 <= j < t.aliases.len() && normalize_spec(#[trigger] t.aliases[j]) == q
}

/// The first topic at or after `from` that answers to `q`.
pub open spec fn first_topic_from(ts: Seq<TopicView>, q: Seq<char>, from: int) -> Option<int>
    decreases ts.len() - from,
{
    if from < 0 || from >= ts.len() {
        None
    } else if topic_matches(ts[from], q) {
        Some(from)
    } else {
        first_topic_from(ts, q, from + 1)
    }
}

/// Whether some alias of `aliases` normalizes to `q`.
fn any_alias_matches(aliases: &Vec<&'static str>, q: &str) -> (b: bool)
    ensures
        b == exists|j: int|
            0 <= j < aliases@.len() && normalize_spec(#[trigger] str_views(aliases@)[j]) == q@,
{
    let mut i: usize = 0;
    while i < aliases.len()
        invariant
            i <= aliases@.len(),
            forall|j: int| 0 <= j < i ==> normalize_spec(#[trigger] str_views(aliases@)[j]) != q@,
        decreases aliases@.len() - i,
    {
        let a = normalize(aliases[i]);
        if str_eq(a.as_str(), q) {
            assert(normalize_spec(str_views(aliases@)[i as int]) == q@);
            return true;
        }
        i += 1;
    }
    false
}

/// Finds the topic that answers to `query`, by name or alias, ignoring case,
/// surrounding white space and the difference between `_` and `-`.
pub fn find_topic(query: &str) -> (r: Option<Topic>)
    ensures
        match r {
            Some(t) => first_topic_from(topics_spec(), normalize_spec(query@), 0) matches Some(
                i,
            ) && t.view() == topics_spec()[i],
            None => first_topic_from(topics_spec(), normalize_spec(query@), 0) is None,
        },
{
    let q = normalize(query);
    let mut ts = topics();
    let ghost tv = topic_views(ts@);
    let mut i: usize = 0;
    while i < ts.len()
        invariant
            i <= ts@.len(),
            tv == topic_views(ts@),
            tv == topics_spec(),
            q@ == normalize_spec(query@),
            first_topic_from(tv, q@, 0) == first_topic_from(tv, q@, i as int),
        decreases ts@.len() - i,
    {
        let name_n = normalize(ts[i].name);
        let hit = str_eq(name_n.as_str(), q.as_str()) || any_alias_matches(&ts[i].aliases, q.as_str());
        proof {
            assert(tv[i as int] == ts@[i as int].view());
            assert(tv[i as int].aliases == str_views(ts@[i as int].aliases@));
            assert(tv[i as int].name == ts@[i as int].name@);
            if hit {
                if name_n@ != q@ {
                    let j = choose|j: int|
                        0 <= j < ts@[i as int].aliases@.len() && normalize_spec(
                            #[trigger] str_views(ts@[i as int].aliases@)[j],
                        ) == q@;
                    assert(normalize_spec(tv[i as int].aliases[j]) == q@);
                }
            }
            if topic_matches(tv[i as int], q@) && name_n@ != q@ {
                let j = choose|j: int|
                    0 <= j < tv[i as int].aliases.len() && normalize_spec(
                        #[trigger] tv[i as int].aliases[j],
                    ) == q@;
                assert(normalize_spec(str_views(ts@[i as int].aliases@)[j]) == q@);
            }
            assert(hit == topic_matches(tv[i as int], q@));
        }
        if hit {
            assert(first_topic_from(tv, q@, i as int) == Some(i as int));
            let ghost before = ts@;
            let t = ts.remove(i);
            assert(t == before[i as int]);
            assert(t.view() == tv[i as int]);
            assert(topics_spec()[i as int] == tv[i as int]);
            assert(q@ == normalize_spec(query@));
            assert(first_topic_from(tv, q@, 0) == Some(i as int));
            assert(first_topic_from(topics_spec(), q@, 0) == Some(i as int));
            assert(first_topic_from(topics_spec(), normalize_spec(query@), 0) == Some(i as int));
            return Some(t);
        }
        i += 1;
    }
    assert(first_topic_from(tv, q@, i as int) is None);
    None
}

/// The reference text a source stands for.
pub open spec fn source_text_spec(src: Source) -> Seq<char> {
    match src {
        Source::Metadata => METADATA_MD@,
        Source::Schemas => SCHEMAS_MD@,
    }
}

/// The reference text a source stands for.
pub fn source_text(src: Source) -> (s: &'static str)
    ensures
        s@ == source_text_spec(src),
{
    match src {
        Source::Metadata => METADATA_MD,
        Source::Schemas => SCHEMAS_MD,
    }
}

// ---------------------------------------------------------------------------
// Section extraction
// ---------------------------------------------------------------------------

/// A level-one or level-two heading line starts at position `p` of `s`, and it is
/// not the first line.
pub open spec fn heading_starts_at(s: Seq<char>, p: int) -> bool {
    &&& 0 < p < s.len()
    &&& s[p - 1] == '\n'
    &&& occurs_at(s, "## "@, p) || occurs_at(s, "# "@, p)
    &&& !occurs_at(s, "### "@, p)
}

/// The first heading line at or after `p`.
pub open spec fn next_heading_from(s: Seq<char>, p: int) -> Option<int>
    decreases s.len() - p,
{
    if p < 0 || p >= s.len() {
        None
    } else if heading_starts_at(s, p) {
        Some(p)
    } else {
        next_heading_from(s, p + 1)
    }
}

/// The position of the first heading line of `s` after its first line.
pub open spec fn next_heading(s: Seq<char>) -> Option<int> {
    next_heading_from(s, 1)
}

/// A heading found from `p` on is a heading at or after `p`, inside `s`.
pub proof fn lemma_next_heading_from(s: Seq<char>, p: int)
    ensures
        next_heading_from(s, p) matches Some(i) ==> p <= i < s.len() && heading_starts_at(s, i),
    decreases s.len() - p,
{
    if 0 <= p < s.len() && !heading_starts_at(s, p) {
        lemma_next_heading_from(s, p + 1);
    }
}

/// The character position where the next `#` or `##` heading line starts, skipping
/// the first line.
fn next_heading_index(s: &str) -> (r: Option<usize>)
    ensures
        match r {
            Some(i) => next_heading(s@) == Some(i as int),
            None => next_heading(s@) is None,
        },
{
    let v = chars_of(s);
    let h2 = chars_of("## ");
    let h1 = chars_of("# ");
    let h3 = chars_of("### ");
    let mut p: usize = 1;
    while p < v.len()
        invariant
            1 <= p,
            v@ == s@,
            h2@ == "## "@,
            h1@ == "# "@,
            h3@ == "### "@,
            next_heading(s@) == next_heading_from(s@, p as int),
        decreases v@.len() - p,
    {
        if v[p - 1] == '\n' && (matches_at(&v, &h2, p) || matches_at(&v, &h1, p)) && !matches_at(
            &v,
            &h3,
            p,
        ) {
            return Some(p);
        }
        p += 1;
    }
    None
}

/// Finds where the next `#` or `##` heading line starts, skipping the first line:
/// the byte offset of that line in `s`.
pub fn find_next_heading(s: &str) -> (r: Option<usize>)
    requires
        utf8_len(s@) <= usize::MAX,
    ensures
        match r {
            Some(o) => next_heading(s@) matches Some(i) && o as int == utf8_len(s@.take(i)),
            None => next_heading(s@) is None,
        },
{
    let i = match next_heading_index(s) {
        Some(i) => i,
        None => {
            return None;
        },
    };
    proof {
        lemma_next_heading_from(s@, 1);
    }
    let cs = chars_of(s);
    let mut acc: usize = 0;
    let mut k: usize = 0;
    proof {
        assert(s@.take(0) =~= Seq::<char>::empty());
        assert(s@.take(s@.len() as int) =~= s@);
    }
    while k < i
        invariant
            cs@ == s@,
            k <= i,
            i < s@.len(),
            acc == utf8_len(s@.take(k as int)),
            utf8_len(s@) <= usize::MAX,
        decreases i - k,
    {
        proof {
            lemma_take_step(s@, k as int);
            if k + 1 < s@.len() {
                lemma_take_increasing(s@, k + 1, s@.len() as int);
            }
            assert(s@.take(s@.len() as int) =~= s@);
        }
        let b = char_bytes(cs[k]);
        acc = acc + b;
        k = k + 1;
    }
    Some(acc)
}

/// A block without its trailing `---` divider and surrounding white space.
pub open spec fn strip_separator_spec(block: Seq<char>) -> Seq<char> {
    let t = trim_end(block);
    if "\n---"@.is_suffix_of(t) {
        trim_end(t.take(t.len() - 4))
    } else if t == "---"@ {
        Seq::empty()
    } else {
        t
    }
}

/// Strips the trailing `\n---` divider (and surrounding white space) that the schema
/// text uses between sections, without touching other hyphens.
pub fn strip_trailing_separator(block: &str) -> (r: String)
    ensures
        r@ == strip_separator_spec(block@),
{
    proof {
        reveal_strlit("\n---");
        reveal_strlit("---");
    }
    let t = trim_end_str(block);
    let tv = chars_of(t.as_str());
    let sep = chars_of("\n---");
    if tv.len() >= 4 && matches_at(&tv, &sep, tv.len() - 4) {
        proof {
            assert(t@.subrange(t@.len() - 4, t@.len() as int) == "\n---"@);
            assert("\n---"@.is_suffix_of(t@));
        }
        let head = take_chars(&tv, tv.len() - 4);
        let hs = string_of(&head);
        trim_end_str(hs.as_str())
    } else {
        proof {
            if "\n---"@.is_suffix_of(t@) {
                assert(occurs_at(tv@, sep@, tv@.len() - 4));
            }
        }
        if str_eq(t.as_str(), "---") {
            String::new()
        } else {
            t
        }
    }
}

/// The `## heading` section of a text that starts with a newline, heading included:
/// the heading line follows a newline, the section ends at the next `#` or `##`
/// heading line or at the end, and its trailing divider is stripped.
pub open spec fn section_after_newline(md: Seq<char>, heading: Seq<char>) -> Option<Seq<char>> {
    let needle = "\n## "@ + heading + "\n"@;
    match first_occurrence(md, needle) {
        None => None,
        Some(start) => {
            let after = md.skip(start + needle.len());
            let block = match next_heading(after) {
                Some(idx) => md.subrange(start + 1, start + needle.len() + idx),
                None => md.skip(start + 1),
            };
            Some(strip_separator_spec(block))
        },
    }
}

/// The `## heading` section of `md`, heading included, wherever its heading line
/// stands, the first line included.
pub open spec fn extract_section_spec(md: Seq<char>, heading: Seq<char>) -> Option<Seq<char>> {
    section_after_newline("\n"@ + md, heading)
}

/// Extracts the `## heading` section of `md`, heading included.
pub fn extract_section(md: &str, heading: &str) -> (r: Option<String>)
    ensures
        match r {
            Some(s) => extract_section_spec(md@, heading@) == Some(s@),
            None => extract_section_spec(md@, heading@) is None,
        },
{
    proof {
        reveal_strlit("\n## ");
    }
    let needle = concat3("\n## ", heading, "\n");
    let m = concat3("\n", md, "");
    proof {
        reveal_strlit("");
        assert(m@ =~= "\n"@ + md@);
    }
    let v = chars_of(m.as_str());
    let nv = chars_of(needle.as_str());
    match find_from(&v, &nv, 0) {
        None => None,
        Some(start) => {
            proof {
                crate::text::lemma_first_occurrence_from(v@, nv@, 0);
                assert(occurs_at(v@, nv@, start as int));
            }
            let vlen = v.len();
            let nlen = nv.len();
            assert(start + nlen <= vlen);
            let after_v = skip_chars(&v, start + nlen);
            let after = string_of(&after_v);
            let body = skip_chars(&v, start + 1);
            proof {
                reveal_strlit("\n## ");
                assert(nv@.len() >= 4);
                lemma_next_heading_from(after@, 1);
            }
            let block_v = match next_heading_index(after.as_str()) {
                Some(idx) => {
                    proof {
                        assert(idx < after@.len());
                        assert(after_v@ == v@.skip(start + nv@.len()));
                        assert(after@.len() == v@.len() - start - nv@.len());
                        assert(body@.len() == v@.len() - start - 1);
                        assert(nv@.len() - 1 + idx < body@.len());
                        assert(vlen == v@.len());
                    }
                    take_chars(&body, nv.len() - 1 + idx)
                },
                None => body,
            };
            proof {
                match next_heading(after@) {
                    Some(idx) => {
                        assert(body@.take(nv@.len() - 1 + idx) =~= m@.subrange(
                            start + 1,
                            start + nv@.len() + idx,
                        ));
                    },
                    None => {},
                }
            }
            let block = string_of(&block_v);
            Some(strip_trailing_separator(block.as_str()))
        },
    }
}

// ---------------------------------------------------------------------------
// Rendering topics
// ---------------------------------------------------------------------------

/// Why the `info` command failed.
#[derive(Debug)]
pub enum InfoError {
    /// No topic answers to the query.
    UnknownTopic { name: String },
    /// A topic names a section that its source text lacks.
    SectionMissing { heading: String, topic: String },
}

/// The lines `  <name>` of every topic, each followed by a newline.
pub open spec fn topic_name_lines(ts: Seq<TopicView>) -> Seq<char>
    decreases ts.len(),
{
    if ts.len() == 0 {
        Seq::empty()
    } else {
        topic_name_lines(ts.drop_last()) + "  "@ + ts.last().name + "\n"@
    }
}

/// The message each error of the `info` command is reported with; an unknown topic
/// is answered with the list of topics.
pub open spec fn info_error_text(e: InfoError) -> Seq<char> {
    match e {
        InfoError::UnknownTopic { name } => trim_end(
            "unknown topic '"@ + name@ + "'. available topics:\n"@ + topic_name_lines(topics_spec()),
        ),
        InfoError::SectionMissing { heading, topic } => "internal: section '"@ + heading@
            + "' not found in embedded source for topic '"@ + topic@ + "'"@,
    }
}

impl InfoError {
    /// The message this error is reported with.
    pub fn message(&self) -> (s: String)
        ensures
            s@ == info_error_text(*self),
    {
        match self {
            InfoError::UnknownTopic { name } => {
                let mut msg = concat3("unknown topic '", name.as_str(), "'. available topics:\n");
                let ghost head = msg@;
                let ts = topics();
                let mut i: usize = 0;
                while i < ts.len()
                    invariant
                        i <= ts@.len(),
                        topic_views(ts@) == topics_spec(),
                        msg@ == head + topic_name_lines(topics_spec().take(i as int)),
                    decreases ts@.len() - i,
                {
                    push_str(&mut msg, "  ");
                    push_str(&mut msg, ts[i].name);
                    push_str(&mut msg, "\n");
                    proof {
                        let tv = topics_spec();
                        assert(tv.take(i + 1).drop_last() =~= tv.take(i as int));
                        assert(tv.take(i + 1).last().name == ts@[i as int].name@);
                        assert(msg@ =~= head + topic_name_lines(tv.take(i + 1)));
                    }
                    i += 1;
                }
                assert(topics_spec().take(i as int) =~= topics_spec());
                trim_end_str(msg.as_str())
            },
            InfoError::SectionMissing { heading, topic } => {
                let mut msg = concat5(
                    "internal: section '",
                    heading.as_str(),
                    "' not found in embedded source for topic '",
                    topic.as_str(),
                    "'",
                );
                msg
            },
        }
    }
}

/// Every section of `hs` is present in `md`.
pub open spec fn sections_found(md: Seq<char>, hs: Seq<Seq<char>>) -> bool {
    forall|i: int| 0 <= i < hs.len() ==> (#[trigger] extract_section_spec(md, hs[i])) is Some
}

/// The extracted sections of `hs`.
pub open spec fn extracted_sections(md: Seq<char>, hs: Seq<Seq<char>>) -> Seq<Seq<char>> {
    hs.map_values(|h: Seq<char>| extract_section_spec(md, h)->Some_0)
}

/// The text of a topic: its sections separated by blank lines, then a newline.
pub open spec fn topic_text(t: TopicView) -> Seq<char> {
    join(extracted_sections(source_text_spec(t.source), t.sections), "\n\n"@) + "\n"@
}

/// Renders a topic: its sections, in order, separated by blank lines.
pub fn render_topic(topic: &Topic) -> (r: Result<String, InfoError>)
    ensures
        match r {
            Ok(s) => sections_found(source_text_spec(topic.source), topic.view().sections) && s@
                == topic_text(topic.view()),
            Err(InfoError::SectionMissing { heading, topic: name }) => name@ == topic.name@
                && exists|i: int|
                0 <= i < topic.sections@.len() && heading@ == topic.sections@[i]@
                    && extract_section_spec(source_text_spec(topic.source), #[trigger] topic.view().sections[i]) is None
                    && sections_found(source_text_spec(topic.source), topic.view().sections.take(i)),
            Err(InfoError::UnknownTopic { .. }) => false,
        },
{
    let md = source_text(topic.source);
    let ghost hs = topic.view().sections;
    let ghost ex = extracted_sections(md@, hs);
    let mut out = String::new();
    let mut i: usize = 0;
    while i < topic.sections.len()
        invariant
            i <= topic.sections@.len(),
            md@ == source_text_spec(topic.source),
            hs == topic.view().sections,
            hs.len() == topic.sections@.len(),
            ex == extracted_sections(md@, hs),
            forall|j: int| 0 <= j < i ==> (#[trigger] extract_section_spec(md@, hs[j])) is Some,
            out@ == join(ex.take(i as int), "\n\n"@),
        decreases topic.sections@.len() - i,
    {
        let heading = topic.sections[i];
        assert(hs[i as int] == heading@);
        match extract_section(md, heading) {
            None => {
                proof {
                    assert forall|j: int| 0 <= j < hs.take(i as int).len() implies (#[trigger] extract_section_spec(
                        md@,
                        hs.take(i as int)[j],
                    )) is Some by {
                        assert(hs.take(i as int)[j] == hs[j]);
                    }
                }
                return Err(
                    InfoError::SectionMissing { heading: owned(heading), topic: owned(topic.name) },
                );
            },
            Some(section) => {
                proof {
                    assert(ex[i as int] == section@);
                    assert(ex.take(i + 1).drop_last() =~= ex.take(i as int));
                    assert(ex.take(i + 1).last() == ex[i as int]);
                }
                if i > 0 {
                    push_str(&mut out, "\n\n");
                }
                push_str(&mut out, section.as_str());
                proof {
                    if i == 0 {
                        assert(out@ =~= ex.take(1)[0]);
                    }
                }
            },
        }
        i += 1;
    }
    push_char(&mut out, '\n');
    assert(ex.take(i as int) =~= ex);
    proof {
        reveal_strlit("\n");
        assert(out@ =~= join(ex, "\n\n"@) + "\n"@);
    }
    Ok(out)
}

// ---------------------------------------------------------------------------
// Output
// ---------------------------------------------------------------------------

/// Appends the JSON array of the given texts.
fn push_json_array(out: &mut String, items: &Vec<&'static str>)
    ensures
        final(out)@ == old(out)@ + json_string_array(str_views(items@)),
{
    let ghost q = str_views(items@).map_values(|x: Seq<char>| json_string_text(x));
    let mut body = String::new();
    let mut i: usize = 0;
    while i < items.len()
        invariant
            i <= items@.len(),
            q == str_views(items@).map_values(|x: Seq<char>| json_string_text(x)),
            body@ == join(q.take(i as int), ","@),
        decreases items@.len() - i,
    {
        let e = json_quote(items[i]);
        proof {
            assert(q[i as int] == e@);
            assert(q.take(i + 1).drop_last() =~= q.take(i as int));
        }
        if i > 0 {
            push_str(&mut body, ",");
        }
        push_str(&mut body, e.as_str());
        proof {
            if i == 0 {
                assert(body@ =~= q.take(1)[0]);
            }
        }
        i += 1;
    }
    assert(q.take(i as int) =~= q);
    push_str(out, "[");
    push_str(out, body.as_str());
    push_str(out, "]");
    assert(out@ =~= old(out)@ + json_string_array(str_views(items@)));
}

/// The JSON object describing one topic in the topic list.
pub open spec fn topic_json(t: TopicView) -> Seq<char> {
    "{\"name\":"@ + json_string_text(t.name) + ",\"aliases\":"@ + json_string_array(t.aliases)
        + ",\"description\":"@ + json_string_text(t.blurb) + "}"@
}

/// The width of the name column: the longest topic name, in bytes.
pub open spec fn name_width(ts: Seq<TopicView>) -> nat
    decreases ts.len(),
{
    if ts.len() == 0 {
        0
    } else {
        let w = name_width(ts.drop_last());
        let x = crate::render::byte_len(ts.last().name);
        if w >= x {
            w
        } else {
            x
        }
    }
}

/// The text lines of the topic list, each name padded to `width`.
pub open spec fn topic_list_lines(ts: Seq<TopicView>, width: nat) -> Seq<char>
    decreases ts.len(),
{
    if ts.len() == 0 {
        Seq::empty()
    } else {
        topic_list_lines(ts.drop_last(), width) + "  "@ + pad_right_spec(ts.last().name, width)
            + "  "@ + ts.last().blurb + "\n"@
    }
}

/// What the topic list is printed as.
pub open spec fn list_topics_spec(fmt: OutputFormat) -> Seq<char> {
    let ts = topics_spec();
    match fmt {
        OutputFormat::Json => "{\"topics\":["@ + join(
            ts.map_values(|t: TopicView| topic_json(t)),
            ","@,
        ) + "]}\n"@,
        OutputFormat::Text => "available topics:\n"@ + topic_list_lines(ts, name_width(ts))
            + "\nusage: iceman info <topic>\n"@,
    }
}

/// The list of topics, as JSON or as text.
#[verifier::rlimit(40)]
pub fn list_topics(fmt: OutputFormat) -> (s: String)
    ensures
        s@ == list_topics_spec(fmt),
{
    let ts = topics();
    let ghost tv = topics_spec();
    let mut out = String::new();
    match fmt {
        OutputFormat::Json => {
            let ghost objs = tv.map_values(|t: TopicView| topic_json(t));
            push_str(&mut out, "{\"topics\":[");
            let ghost head = out@;
            let mut i: usize = 0;
            while i < ts.len()
                invariant
                    i <= ts@.len(),
                    topic_views(ts@) == tv,
                    tv == topics_spec(),
                    objs == tv.map_values(|t: TopicView| topic_json(t)),
                    out@ == head + join(objs.take(i as int), ","@),
                decreases ts@.len() - i,
            {
                let ghost before = out@;
                if i > 0 {
                    push_str(&mut out, ",");
                }
                let ghost mid = out@;
                push_str(&mut out, "{\"name\":");
                let n = json_quote(ts[i].name);
                push_str(&mut out, n.as_str());
                push_str(&mut out, ",\"aliases\":");
                push_json_array(&mut out, &ts[i].aliases);
                push_str(&mut out, ",\"description\":");
                let d = json_quote(ts[i].blurb);
                push_str(&mut out, d.as_str());
                push_str(&mut out, "}");
                proof {
                    let t = tv[i as int];
                    assert(t == ts@[i as int].view());
                    assert(out@ =~= mid + topic_json(t));
                    assert(objs[i as int] == topic_json(t));
                    assert(objs.take(i + 1).drop_last() =~= objs.take(i as int));
                    if i == 0 {
                        assert(out@ =~= head + objs.take(1)[0]);
                    } else {
                        assert(out@ =~= head + (join(objs.take(i as int), ","@) + ","@ + objs[i as int]));
                    }
                }
                i += 1;
            }
            assert(objs.take(i as int) =~= objs);
            push_str(&mut out, "]}\n");
            assert(out@ =~= list_topics_spec(fmt));
        },
        OutputFormat::Text => {
            let mut width: usize = 0;
            let mut k: usize = 0;
            while k < ts.len()
                invariant
                    k <= ts@.len(),
                    topic_views(ts@) == tv,
                    tv == topics_spec(),
                    width == name_width(tv.take(k as int)),
                decreases ts@.len() - k,
            {
                let l = ts[k].name.len();
                proof {
                    assert(tv.take(k + 1).drop_last() =~= tv.take(k as int));
                    assert(tv.take(k + 1).last().name == ts@[k as int].name@);
                }
                if l > width {
                    width = l;
                }
                k += 1;
            }
            assert(tv.take(k as int) =~= tv);
            push_str(&mut out, "available topics:\n");
            let ghost head = out@;
            let mut i: usize = 0;
            while i < ts.len()
                invariant
                    i <= ts@.len(),
                    topic_views(ts@) == tv,
                    tv == topics_spec(),
                    width == name_width(tv),
                    out@ == head + topic_list_lines(tv.take(i as int), width as nat),
                decreases ts@.len() - i,
            {
                push_str(&mut out, "  ");
                push_padded_right(&mut out, ts[i].name, width);
                push_str(&mut out, "  ");
                push_str(&mut out, ts[i].blurb);
                push_str(&mut out, "\n");
                proof {
                    assert(tv.take(i + 1).drop_last() =~= tv.take(i as int));
                    assert(tv.take(i + 1).last() == ts@[i as int].view());
                    assert(out@ =~= head + topic_list_lines(tv.take(i + 1), width as nat));
                }
                i += 1;
            }
            assert(tv.take(i as int) =~= tv);
            push_str(&mut out, "\nusage: iceman info <topic>\n");
            assert(out@ =~= list_topics_spec(fmt));
        },
    }
    out
}

/// The text printed for one topic: JSON with its name and content, or the content.
pub open spec fn topic_output(t: TopicView, fmt: OutputFormat) -> Seq<char> {
    match fmt {
        OutputFormat::Json => "{\"topic\":"@ + json_string_text(t.name) + ",\"content\":"@
            + json_string_text(topic_text(t)) + "}\n"@,
        OutputFormat::Text => topic_text(t),
    }
}

/// Runs the `info` command: the topic list when no topic is given, else the named
/// topic; the result is the text to print.
pub fn run(topic: Option<&str>, fmt: OutputFormat) -> (r: Result<String, InfoError>)
    ensures
        match topic {
            None => r matches Ok(s) && s@ == list_topics_spec(fmt),
            Some(name) => match first_topic_from(topics_spec(), normalize_spec(name@), 0) {
                None => r matches Err(InfoError::UnknownTopic { name: n }) && n@ == name@,
                Some(i) => {
                    let t = topics_spec()[i];
                    match r {
                        Ok(s) => sections_found(source_text_spec(t.source), t.sections) && s@
                            == topic_output(t, fmt),
                        Err(e) => e is SectionMissing && !sections_found(
                            source_text_spec(t.source),
                            t.sections,
                        ),
                    }
                },
            },
        },
{
    match topic {
        None => Ok(list_topics(fmt)),
        Some(name) => {
            let t = match find_topic(name) {
                Some(t) => t,
                None => {
                    return Err(InfoError::UnknownTopic { name: owned(name) });
                },
            };
            let content = match render_topic(&t) {
                Ok(c) => c,
                Err(e) => {
                    return Err(e);
                },
            };
            match fmt {
                OutputFormat::Json => {
                    let mut out = String::new();
                    push_str(&mut out, "{\"topic\":");
                    let n = json_quote(t.name);
                    push_str(&mut out, n.as_str());
                    push_str(&mut out, ",\"content\":");
                    let c = json_quote(content.as_str());
                    push_str(&mut out, c.as_str());
                    push_str(&mut out, "}\n");
                    assert(out@ =~= topic_output(t.view(), fmt));
                    Ok(out)
                },
                OutputFormat::Text => Ok(content),
            }
        },
    }
}

} // verus!
