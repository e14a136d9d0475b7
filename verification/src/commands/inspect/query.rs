//! SQL queries over the metadata tables: which tables a query reads, the script
//! handed to DuckDB, and the text its result is shown as.
use vstd::prelude::*;

use crate::cli::{all_tables_spec, needs_snapshot, sql_name_spec, MetadataTable, OutputFormat};
use crate::render::{lines_text, padded_spec, rows_have_width, rows_views, str_views, tsv_spec, write_padded_strings, write_tsv};
use crate::text::{
    chars_of, first_occurrence, find_from, owned, push_str, string_of, take_chars, to_lowercase, trim,
    trim_str, unicode_lowercase, views,
};

verus! {

/// `s` without its trailing `c` characters (`str::trim_end_matches` with a char).
pub open spec fn strip_trailing(s: Seq<char>, c: char) -> Seq<char>
    decreases s.len(),
{
    if s.len() > 0 && s.last() == c {
        strip_trailing(s.drop_last(), c)
    } else {
        s
    }
}

/// The query as it is run: trailing semicolons removed, then surrounding whitespace.
pub open spec fn normalized_query(sql: Seq<char>) -> Seq<char> {
    trim(strip_trailing(sql, ';'))
}

/// The query as it is run.
pub fn normalize_query(sql: &str) -> (r: String)
    ensures
        r@ == normalized_query(sql@),
{
    let v = chars_of(sql);
    let mut n: usize = v.len();
    assert(v@.take(n as int) =~= v@);
    while n > 0 && v[n - 1] == ';'
        invariant
            n <= v@.len(),
            v@ == sql@,
            strip_trailing(v@.take(n as int), ';') == strip_trailing(sql@, ';'),
        decreases n,
    {
        assert(v@.take(n as int).drop_last() =~= v@.take(n - 1));
        n -= 1;
    }
    let t = take_chars(&v, n);
    let s = string_of(&t);
    trim_str(s.as_str())
}

/// Whether the lowercased query mentions the table's SQL name.
pub open spec fn mentions(sql_lower: Seq<char>, t: MetadataTable) -> bool {
    first_occurrence(sql_lower, sql_name_spec(t)) is Some
}

/// The tables of `ts`, in order, that a query mentions and that can be read: a
/// table that needs a snapshot is left out when the table has none.
pub open spec fn query_tables_spec(ts: Seq<MetadataTable>, sql_lower: Seq<char>, has_snapshot: bool) -> Seq<
    MetadataTable,
>
    decreases ts.len(),
{
    if ts.len() == 0 {
        Seq::empty()
    } else {
        let rest = query_tables_spec(ts.drop_last(), sql_lower, has_snapshot);
        let t = ts.last();
        if mentions(sql_lower, t) && (!needs_snapshot(t) || has_snapshot) {
            rest.push(t)
        } else {
            rest
        }
    }
}

/// What a query run needs: the query text and the tables to create for it.
pub struct QueryPlan {
    pub sql: String,
    pub tables: Vec<MetadataTable>,
}

/// The metadata tables, in the order they are listed, whose SQL name occurs in the
/// lowercased query `sql_lower`; those that need a snapshot only when the table has one.
pub fn query_tables(sql_lower: &str, has_snapshot: bool) -> (tables: Vec<MetadataTable>)
    ensures
        tables@ == query_tables_spec(all_tables_spec(), sql_lower@, has_snapshot),
{
    let lv = chars_of(sql_lower);
    let all = MetadataTable::all_tables();
    let mut tables: Vec<MetadataTable> = Vec::new();
    let mut i: usize = 0;
    while i < all.len()
        invariant
            i <= all@.len(),
            all@ == all_tables_spec(),
            lv@ == sql_lower@,
            tables@ == query_tables_spec(all@.take(i as int), lv@, has_snapshot),
        decreases all@.len() - i,
    {
        let t = all[i];
        let name = chars_of(t.sql_name());
        let found = find_from(&lv, &name, 0);
        proof {
            let s = all@.take(i + 1);
            assert(s.drop_last() =~= all@.take(i as int));
            assert(s.last() == t);
        }
        if found.is_some() && (!t.requires_snapshot() || has_snapshot) {
            tables.push(t);
        }
        i += 1;
    }
    assert(all@.take(i as int) =~= all@);
    tables
}

/// The query to run and the metadata tables it reads: those whose SQL name occurs in
/// the lowercased query, in the order the tables are listed.
pub fn plan_query(sql: &str, has_snapshot: bool) -> (p: QueryPlan)
    ensures
        p.sql@ == normalized_query(sql@),
        p.tables@ == query_tables_spec(
            all_tables_spec(),
            unicode_lowercase(normalized_query(sql@)),
            has_snapshot,
        ),
{
    let q = normalize_query(sql);
    let lower = to_lowercase(q.as_str());
    let tables = query_tables(lower.as_str(), has_snapshot);
    QueryPlan { sql: q, tables }
}

/// The statement that creates a table from a file of JSON lines.
pub open spec fn create_table_text(name: Seq<char>, path: Seq<char>) -> Seq<char> {
    "CREATE TABLE "@ + name + " AS SELECT * FROM read_json_auto('"@ + path + "')"@
}

/// The statement that creates table `name` from the JSON lines at `path`.
pub fn create_table_statement(name: &str, path: &str) -> (s: String)
    ensures
        s@ == create_table_text(name@, path@),
{
    let mut s = owned("CREATE TABLE ");
    push_str(&mut s, name);
    push_str(&mut s, " AS SELECT * FROM read_json_auto('");
    push_str(&mut s, path);
    push_str(&mut s, "')");
    s
}

/// Statements, each closed by a semicolon and a newline.
pub open spec fn statements_text(stmts: Seq<Seq<char>>) -> Seq<char>
    decreases stmts.len(),
{
    if stmts.len() == 0 {
        Seq::empty()
    } else {
        statements_text(stmts.drop_last()) + stmts.last() + ";\n"@
    }
}

/// The DuckDB script: the table statements, then the query copied as a JSON array
/// to the result file.
pub open spec fn script_text(stmts: Seq<Seq<char>>, sql: Seq<char>, result_path: Seq<char>) -> Seq<char> {
    statements_text(stmts) + "COPY ("@ + sql + ") TO '"@ + result_path + "' (FORMAT JSON, ARRAY TRUE);\n"@
}

/// The DuckDB script for a query.
pub fn query_script(stmts: &Vec<String>, sql: &str, result_path: &str) -> (s: String)
    ensures
        s@ == script_text(views(stmts@), sql@, result_path@),
{
    let mut s = String::new();
    let mut i: usize = 0;
    while i < stmts.len()
        invariant
            i <= stmts@.len(),
            s@ == statements_text(views(stmts@).take(i as int)),
        decreases stmts@.len() - i,
    {
        push_str(&mut s, stmts[i].as_str());
        push_str(&mut s, ";\n");
        proof {
            let t = views(stmts@).take(i + 1);
            assert(t.drop_last() =~= views(stmts@).take(i as int));
            assert(t.last() == stmts@[i as int]@);
        }
        i += 1;
    }
    assert(views(stmts@).take(i as int) =~= views(stmts@));
    push_str(&mut s, "COPY (");
    push_str(&mut s, sql);
    push_str(&mut s, ") TO '");
    push_str(&mut s, result_path);
    push_str(&mut s, "' (FORMAT JSON, ARRAY TRUE);\n");
    assert(s@ =~= script_text(views(stmts@), sql@, result_path@));
    s
}

/// One value of a query result.
#[derive(Debug)]
pub enum QueryValue {
    Null,
    Bool(bool),
    /// A number, as JSON writes it.
    Number(String),
    Str(String),
    /// An array or object, as compact JSON.
    Nested(String),
}

/// One row of a query result: its compact JSON text, and its fields when it is an
/// object.
#[derive(Debug)]
pub struct QueryRow {
    pub text: String,
    pub fields: Option<Vec<(String, QueryValue)>>,
}

/// The value of field `key`: the first field with that name.
pub open spec fn field_value(fields: Seq<(String, QueryValue)>, key: Seq<char>) -> Option<QueryValue>
    decreases fields.len(),
{
    if fields.len() == 0 {
        None
    } else if fields[0].0@ == key {
        Some(fields[0].1)
    } else {
        field_value(fields.drop_first(), key)
    }
}

/// The value of field `key` of a row; a row that is no object has none.
pub open spec fn row_value(r: QueryRow, key: Seq<char>) -> Option<QueryValue> {
    match r.fields {
        Some(f) => field_value(f@, key),
        None => None,
    }
}

/// How a value is shown in a cell: a string without quotes, a missing or null value
/// as nothing.
pub open spec fn value_text(v: Option<QueryValue>) -> Seq<char> {
    match v {
        None => Seq::empty(),
        Some(QueryValue::Null) => Seq::empty(),
        Some(QueryValue::Bool(b)) => crate::text::bool_text(b),
        Some(QueryValue::Number(n)) => n@,
        Some(QueryValue::Str(s)) => s@,
        Some(QueryValue::Nested(t)) => t@,
    }
}

/// A value that keeps a column right-aligned: a number, a null, or nothing.
pub open spec fn numeric_value(v: Option<QueryValue>) -> bool {
    match v {
        None => true,
        Some(QueryValue::Null) => true,
        Some(QueryValue::Number(_)) => true,
        _ => false,
    }
}

/// The value of field `key`.
pub fn lookup<'a>(fields: &'a Vec<(String, QueryValue)>, key: &str) -> (r: Option<&'a QueryValue>)
    ensures
        match r {
            Some(v) => field_value(fields@, key@) == Some(*v),
            None => field_value(fields@, key@) is None,
        },
{
    let mut i: usize = 0;
    assert(fields@.skip(0) =~= fields@);
    while i < fields.len()
        invariant
            i <= fields@.len(),
            field_value(fields@.skip(i as int), key@) == field_value(fields@, key@),
        decreases fields@.len() - i,
    {
        assert(fields@.skip(i as int)[0] == fields@[i as int]);
        if crate::text::str_eq(fields[i].0.as_str(), key) {
            return Some(&fields[i].1);
        }
        assert(fields@.skip(i as int).drop_first() =~= fields@.skip(i + 1));
        i += 1;
    }
    None
}

/// How a value is shown in a cell.
pub fn format_value(v: Option<&QueryValue>) -> (s: String)
    ensures
        s@ == value_text(match v {
            Some(x) => Some(*x),
            None => None,
        }),
{
    match v {
        None => String::new(),
        Some(QueryValue::Null) => String::new(),
        Some(QueryValue::Bool(b)) => crate::text::bool_str(*b),
        Some(QueryValue::Number(n)) => n.clone(),
        Some(QueryValue::Str(s)) => s.clone(),
        Some(QueryValue::Nested(t)) => t.clone(),
    }
}

/// The field names of the first row, when it is an object.
pub open spec fn result_keys(rows: Seq<QueryRow>) -> Seq<Seq<char>> {
    match rows[0].fields {
        Some(f) => f@.map_values(|p: (String, QueryValue)| p.0@),
        None => Seq::empty(),
    }
}

/// The shown text of every cell.
pub open spec fn result_cells(rows: Seq<QueryRow>, keys: Seq<Seq<char>>) -> Seq<Seq<Seq<char>>> {
    rows.map_values(|r: QueryRow| keys.map_values(|k: Seq<char>| value_text(row_value(r, k))))
}

/// Whether column `key` holds only numbers, nulls and gaps.
pub open spec fn numeric_result_column(rows: Seq<QueryRow>, key: Seq<char>) -> bool {
    forall|r: int| 0 <= r < rows.len() ==> #[trigger] numeric_value(row_value(rows[r], key))
}

/// The text of a query result: nothing for no rows; each row's JSON on a line of its
/// own when the first row is no object; else a table with the first row's fields as
/// columns, laid out aligned or as tab-separated values.
pub open spec fn result_table_text(rows: Seq<QueryRow>, aligned: bool) -> Seq<char> {
    if rows.len() == 0 {
        Seq::empty()
    } else if rows[0].fields is None {
        lines_text(rows.map_values(|r: QueryRow| r.text@))
    } else {
        let keys = result_keys(rows);
        let cells = result_cells(rows, keys);
        if aligned {
            padded_spec(keys, cells, keys.map_values(|k: Seq<char>| numeric_result_column(rows, k)))
        } else {
            tsv_spec(keys, cells)
        }
    }
}

/// The text of a query result in the given format: JSON lines, or the table text.
pub open spec fn query_output_text(rows: Seq<QueryRow>, fmt: OutputFormat, aligned: bool) -> Seq<char> {
    match fmt {
        OutputFormat::Json => lines_text(rows.map_values(|r: QueryRow| r.text@)),
        OutputFormat::Text => result_table_text(rows, aligned),
    }
}

/// Each row's JSON text on a line of its own.
pub fn json_lines(rows: &[QueryRow]) -> (s: String)
    ensures
        s@ == lines_text(rows@.map_values(|r: QueryRow| r.text@)),
{
    let ghost all = rows@.map_values(|r: QueryRow| r.text@);
    let mut s = String::new();
    let mut i: usize = 0;
    while i < rows.len()
        invariant
            i <= rows@.len(),
            all == rows@.map_values(|r: QueryRow| r.text@),
            s@ == lines_text(all.take(i as int)),
        decreases rows@.len() - i,
    {
        push_str(&mut s, rows[i].text.as_str());
        push_str(&mut s, "\n");
        proof {
            let t = all.take(i + 1);
            assert(t.drop_last() =~= all.take(i as int));
            assert(t.last() == rows@[i as int].text@);
        }
        i += 1;
    }
    assert(all.take(i as int) =~= all);
    s
}

/// The text of a query result whose first row is an object.
fn table_of_rows(rows: &[QueryRow], aligned: bool) -> (s: String)
    requires
        rows@.len() > 0,
        rows@[0].fields is Some,
    ensures
        s@ == result_table_text(rows@, aligned),
{
    let first = match &rows[0].fields {
        Some(f) => f,
        None => {
            return String::new();
        },
    };
    let ghost keys = result_keys(rows@);
    let ghost cells = result_cells(rows@, keys);
    let mut headers: Vec<&str> = Vec::new();
    let mut c: usize = 0;
    while c < first.len()
        invariant
            c <= first@.len(),
            rows@[0].fields == Some(*first),
            keys == result_keys(rows@),
            str_views(headers@) == keys.take(c as int),
        decreases first@.len() - c,
    {
        let ghost before = headers@;
        headers.push(first[c].0.as_str());
        assert(str_views(headers@) =~= str_views(before).push(keys[c as int]));
        c += 1;
        assert(str_views(headers@) =~= keys.take(c as int));
    }
    assert(keys.take(c as int) =~= keys);
    let ghost nk = keys.len();
    let mut displayed: Vec<Vec<String>> = Vec::new();
    let mut r: usize = 0;
    while r < rows.len()
        invariant
            r <= rows@.len(),
            keys == result_keys(rows@),
            cells == result_cells(rows@, keys),
            str_views(headers@) == keys,
            nk == keys.len(),
            displayed@.len() == r,
            forall|q: int| 0 <= q < r ==> views(#[trigger] displayed@[q]@) == cells[q],
        decreases rows@.len() - r,
    {
        let mut line: Vec<String> = Vec::new();
        let mut c: usize = 0;
        while c < headers.len()
            invariant
                c <= headers@.len(),
                r < rows@.len(),
                str_views(headers@) == keys,
                cells == result_cells(rows@, keys),
                views(line@) == cells[r as int].take(c as int),
            decreases headers@.len() - c,
        {
            let v = match &rows[r].fields {
                Some(f) => lookup(f, headers[c]),
                None => None,
            };
            let t = format_value(v);
            let ghost before = line@;
            assert(str_views(headers@)[c as int] == headers@[c as int]@);
            assert(t@ == cells[r as int][c as int]);
            line.push(t);
            assert(views(line@) =~= views(before).push(cells[r as int][c as int]));
            c += 1;
            assert(views(line@) =~= cells[r as int].take(c as int));
        }
        assert(cells[r as int].take(c as int) =~= cells[r as int]);
        displayed.push(line);
        r += 1;
    }
    assert(rows_views(displayed@) =~= cells);
    let mut s = String::new();
    if aligned {
        let ghost want = keys.map_values(|k: Seq<char>| numeric_result_column(rows@, k));
        let mut numeric: Vec<bool> = Vec::new();
        let mut c: usize = 0;
        while c < headers.len()
            invariant
                c <= headers@.len(),
                str_views(headers@) == keys,
                want == keys.map_values(|k: Seq<char>| numeric_result_column(rows@, k)),
                numeric@ == want.take(c as int),
            decreases headers@.len() - c,
        {
            let mut all = true;
            let mut q: usize = 0;
            while q < rows.len()
                invariant
                    q <= rows@.len(),
                    c < headers@.len(),
                    str_views(headers@) == keys,
                    all == forall|p: int| 0 <= p < q ==> #[trigger] numeric_value(row_value(rows@[p], keys[c as int])),
                decreases rows@.len() - q,
            {
                let v = match &rows[q].fields {
                    Some(f) => lookup(f, headers[c]),
                    None => None,
                };
                assert(str_views(headers@)[c as int] == headers@[c as int]@);
                let ok = match v {
                    None => true,
                    Some(QueryValue::Null) => true,
                    Some(QueryValue::Number(_)) => true,
                    _ => false,
                };
                assert(numeric_value(row_value(rows@[q as int], keys[c as int])) == ok);
                if !ok {
                    all = false;
                }
                q += 1;
            }
            numeric.push(all);
            c += 1;
            assert(numeric@ =~= want.take(c as int));
        }
        assert(want.take(c as int) =~= want);
        write_padded_strings(&mut s, headers.as_slice(), displayed.as_slice(), numeric.as_slice());
    } else {
        write_tsv(&mut s, headers.as_slice(), displayed.as_slice());
    }
    s
}

/// The text a query result is shown as, after keeping at most `limit` rows.
pub fn query_output(rows: &Vec<QueryRow>, limit: Option<usize>, fmt: OutputFormat, aligned: bool) -> (s: String)
    ensures
        s@ == query_output_text(
            match limit {
                Some(n) => if n < rows@.len() {
                    rows@.take(n as int)
                } else {
                    rows@
                },
                None => rows@,
            },
            fmt,
            aligned,
        ),
{
    let n = match limit {
        Some(n) => if n < rows.len() {
            n
        } else {
            rows.len()
        },
        None => rows.len(),
    };
    let kept = vstd::slice::slice_subrange(rows.as_slice(), 0, n);
    proof {
        assert(rows@.take(rows@.len() as int) =~= rows@);
    }
    match fmt {
        OutputFormat::Json => json_lines(kept),
        OutputFormat::Text => {
            if kept.len() == 0 {
                String::new()
            } else if kept[0].fields.is_none() {
                json_lines(kept)
            } else {
                table_of_rows(kept, aligned)
            }
        },
    }
}

} // verus!
