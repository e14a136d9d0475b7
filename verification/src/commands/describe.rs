//! The `describe` command: a table's schema, partitioning, sort order and
//! properties, or a namespace's properties, and the text they are shown as.
use vstd::prelude::*;

use crate::cli::EntityType;
use crate::props::{text_map, to_map};
use crate::render::{byte_len, DisplayText};
use crate::sorted::SortedMap;
use crate::text::{
    bool_str, bool_text, decimal, i64_text, int_text, owned, pad_left_spec, pad_right_spec, push_padded_left,
    push_padded_right, push_str, str_eq, u64_text,
};

verus! {

/// One column of a table schema.
#[derive(Debug)]
pub struct SchemaField {
    pub id: i32,
    pub name: String,
    /// The column type, as Iceberg writes it.
    pub field_type: String,
    pub required: bool,
}

/// One field of a partition spec.
#[derive(Debug)]
pub struct PartitionField {
    pub name: String,
    pub source_id: i32,
    /// The transform, as Iceberg writes it (`identity`, `bucket[16]`, `void`, ...).
    pub transform: String,
}

/// One field of a sort order, as shown.
#[derive(Debug)]
pub struct SortField {
    /// The name of the sorted column, or `?` when the schema has no such column.
    pub field: String,
    pub direction: String,
    pub null_order: String,
}

/// The direction of a sort field.
#[derive(Debug, Clone, Copy, PartialEq, Eq, Structural)]
pub enum SortDirection {
    Ascending,
    Descending,
}

/// Where nulls sort.
#[derive(Debug, Clone, Copy, PartialEq, Eq, Structural)]
pub enum NullOrder {
    First,
    Last,
}

/// A sort field as the sort order records it.
#[derive(Debug)]
pub struct SortFieldMeta {
    pub source_id: i32,
    pub direction: SortDirection,
    pub null_order: NullOrder,
}

/// The current snapshot's time and operation.
#[derive(Debug)]
pub struct CurrentSnapshot {
    pub timestamp_ms: i64,
    pub operation: String,
}

/// The parts of a loaded table that `describe` reads.
#[derive(Debug)]
pub struct TableDescription {
    pub location: String,
    pub uuid: String,
    pub format_version: u8,
    pub current_snapshot_id: Option<i64>,
    pub current_snapshot: Option<CurrentSnapshot>,
    /// The number of snapshot-log entries.
    pub history_len: usize,
    /// The fields of the current schema.
    pub schema: Vec<SchemaField>,
    /// The fields of the default partition spec.
    pub partition_fields: Vec<PartitionField>,
    /// The fields of the default sort order.
    pub sort_fields: Vec<SortFieldMeta>,
    pub properties: Vec<(String, String)>,
}

/// A described table.
#[derive(Debug)]
pub struct TableInfo {
    pub kind: &'static str,
    pub identifier: String,
    pub location: String,
    pub uuid: String,
    pub format_version: u8,
    pub current_snapshot_id: Option<i64>,
    pub current_snapshot_timestamp_ms: Option<i64>,
    pub snapshot_count: usize,
    pub schema: Vec<SchemaField>,
    pub partition_spec: Vec<PartitionField>,
    pub sort_order: Vec<SortField>,
    pub properties: SortedMap<String>,
    pub current_snapshot_op: String,
}

/// A described namespace.
#[derive(Debug)]
pub struct NamespaceInfo {
    pub kind: &'static str,
    pub identifier: String,
    pub properties: SortedMap<String>,
}

/// What `describe` found.
#[derive(Debug)]
pub enum Described {
    Table(TableInfo),
    Namespace(NamespaceInfo),
}

// ---------------------------------------------------------------------------
// From the table to the description
// ---------------------------------------------------------------------------

/// The text of a sort direction.
pub open spec fn direction_text(d: SortDirection) -> Seq<char> {
    match d {
        SortDirection::Ascending => "ascending"@,
        SortDirection::Descending => "descending"@,
    }
}

/// The text of a null order.
pub open spec fn null_order_text(n: NullOrder) -> Seq<char> {
    match n {
        NullOrder::First => "first"@,
        NullOrder::Last => "last"@,
    }
}

/// A spec is unpartitioned when it has no field or every field is `void`.
pub open spec fn is_unpartitioned(fields: Seq<PartitionField>) -> bool {
    forall|i: int| 0 <= i < fields.len() ==> (#[trigger] fields[i]).transform@ == "void"@
}

/// The name of the first schema column with id `id`, or `?`.
pub open spec fn column_name(schema: Seq<SchemaField>, id: i32) -> Seq<char>
    decreases schema.len(),
{
    if schema.len() == 0 {
        "?"@
    } else if schema[0].id == id {
        schema[0].name@
    } else {
        column_name(schema.drop_first(), id)
    }
}

/// Two schema columns show the same.
pub open spec fn same_field(a: SchemaField, b: SchemaField) -> bool {
    a.id == b.id && a.name@ == b.name@ && a.field_type@ == b.field_type@ && a.required == b.required
}

/// Two partition fields show the same.
pub open spec fn same_partition_field(a: PartitionField, b: PartitionField) -> bool {
    a.name@ == b.name@ && a.source_id == b.source_id && a.transform@ == b.transform@
}

/// The shown sort field for a recorded one.
pub open spec fn sort_field_of(r: SortField, m: SortFieldMeta, schema: Seq<SchemaField>) -> bool {
    &&& r.field@ == column_name(schema, m.source_id)
    &&& r.direction@ == direction_text(m.direction)
    &&& r.null_order@ == null_order_text(m.null_order)
}

/// The properties as a map: a later pair for the same key replaces an earlier one.
pub open spec fn property_map(p: Seq<(String, String)>) -> Map<Seq<char>, Seq<char>> {
    text_map(to_map(p))
}

/// The description of a table: its fields as recorded, the current snapshot's
/// time only when positive, the partition fields only when partitioned, and the
/// properties sorted by key.
pub open spec fn table_info_of(i: TableInfo, t: TableDescription, identifier: Seq<char>) -> bool {
    &&& i.kind@ == "table"@
    &&& i.identifier@ == identifier
    &&& i.location@ == t.location@
    &&& i.uuid@ == t.uuid@
    &&& i.format_version == t.format_version
    &&& i.current_snapshot_id == t.current_snapshot_id
    &&& i.current_snapshot_timestamp_ms == match t.current_snapshot {
        Some(c) => if c.timestamp_ms > 0 {
            Some(c.timestamp_ms)
        } else {
            None
        },
        None => None,
    }
    &&& i.current_snapshot_op@ == match t.current_snapshot {
        Some(c) => c.operation@,
        None => Seq::empty(),
    }
    &&& i.snapshot_count == t.history_len
    &&& i.schema@.len() == t.schema@.len()
    &&& forall|k: int| 0 <= k < i.schema@.len() ==> same_field(#[trigger] i.schema@[k], t.schema@[k])
    &&& if is_unpartitioned(t.partition_fields@) {
        i.partition_spec@.len() == 0
    } else {
        &&& i.partition_spec@.len() == t.partition_fields@.len()
        &&& forall|k: int|
            0 <= k < i.partition_spec@.len() ==> same_partition_field(
                #[trigger] i.partition_spec@[k],
                t.partition_fields@[k],
            )
    }
    &&& i.sort_order@.len() == t.sort_fields@.len()
    &&& forall|k: int|
        0 <= k < i.sort_order@.len() ==> sort_field_of(#[trigger] i.sort_order@[k], t.sort_fields@[k], t.schema@)
    &&& text_map(i.properties.map()) == property_map(t.properties@)
}

/// A copy of a schema column.
fn copy_field(f: &SchemaField) -> (r: SchemaField)
    ensures
        same_field(r, *f),
{
    SchemaField { id: f.id, name: f.name.clone(), field_type: f.field_type.clone(), required: f.required }
}

/// Whether every partition field is `void`.
fn all_void(fields: &Vec<PartitionField>) -> (b: bool)
    ensures
        b == is_unpartitioned(fields@),
{
    proof {
        reveal_strlit("void");
    }
    let mut i: usize = 0;
    while i < fields.len()
        invariant
            i <= fields@.len(),
            forall|k: int| 0 <= k < i ==> (#[trigger] fields@[k]).transform@ == "void"@,
        decreases fields@.len() - i,
    {
        if !str_eq(fields[i].transform.as_str(), "void") {
            return false;
        }
        i += 1;
    }
    true
}

/// The name of the first schema column with id `id`, or `?`.
fn find_column_name(schema: &Vec<SchemaField>, id: i32) -> (s: String)
    ensures
        s@ == column_name(schema@, id),
{
    let mut i: usize = 0;
    assert(schema@.skip(0) =~= schema@);
    while i < schema.len()
        invariant
            i <= schema@.len(),
            column_name(schema@.skip(i as int), id) == column_name(schema@, id),
        decreases schema@.len() - i,
    {
        assert(schema@.skip(i as int)[0] == schema@[i as int]);
        if schema[i].id == id {
            return schema[i].name.clone();
        }
        assert(schema@.skip(i as int).drop_first() =~= schema@.skip(i + 1));
        i += 1;
    }
    proof {
        reveal_strlit("?");
        assert(schema@.skip(i as int).len() == 0);
    }
    owned("?")
}

/// The text of a sort direction.
fn direction_name(d: SortDirection) -> (s: String)
    ensures
        s@ == direction_text(d),
{
    match d {
        SortDirection::Ascending => owned("ascending"),
        SortDirection::Descending => owned("descending"),
    }
}

/// The text of a null order.
fn null_order_name(n: NullOrder) -> (s: String)
    ensures
        s@ == null_order_text(n),
{
    match n {
        NullOrder::First => owned("first"),
        NullOrder::Last => owned("last"),
    }
}

/// The properties sorted by key.
pub fn sorted_properties(p: &Vec<(String, String)>) -> (m: SortedMap<String>)
    ensures
        text_map(m.map()) == property_map(p@),
{
    let mut m: SortedMap<String> = SortedMap::new();
    let mut i: usize = 0;
    proof {
        assert(text_map(m.map()) =~= property_map(p@.take(0)));
    }
    while i < p.len()
        invariant
            i <= p@.len(),
            text_map(m.map()) == property_map(p@.take(i as int)),
        decreases p@.len() - i,
    {
        let k = p[i].0.clone();
        let v = p[i].1.clone();
        let ghost before = m.map();
        m.insert(k, v);
        proof {
            let t = p@.take(i + 1);
            assert(t.drop_last() =~= p@.take(i as int));
            assert(t.last() == p@[i as int]);
            assert(text_map(m.map()) =~= text_map(before).insert(k@, v@));
            assert(property_map(t) =~= property_map(p@.take(i as int)).insert(p@[i as int].0@, p@[i as int].1@));
        }
        i += 1;
    }
    assert(p@.take(i as int) =~= p@);
    m
}

/// The description of a loaded table.
pub fn table_info(t: &TableDescription, identifier: &str) -> (info: TableInfo)
    ensures
        table_info_of(info, *t, identifier@),
{
    let mut schema: Vec<SchemaField> = Vec::new();
    let mut i: usize = 0;
    while i < t.schema.len()
        invariant
            i <= t.schema@.len(),
            schema@.len() == i,
            forall|k: int| 0 <= k < i ==> same_field(#[trigger] schema@[k], t.schema@[k]),
        decreases t.schema@.len() - i,
    {
        schema.push(copy_field(&t.schema[i]));
        i += 1;
    }
    let mut partition_spec: Vec<PartitionField> = Vec::new();
    if !all_void(&t.partition_fields) {
        let mut i: usize = 0;
        while i < t.partition_fields.len()
            invariant
                i <= t.partition_fields@.len(),
                partition_spec@.len() == i,
                forall|k: int|
                    0 <= k < i ==> same_partition_field(#[trigger] partition_spec@[k], t.partition_fields@[k]),
            decreases t.partition_fields@.len() - i,
        {
            let pf = &t.partition_fields[i];
            partition_spec.push(
                PartitionField {
                    name: pf.name.clone(),
                    source_id: pf.source_id,
                    transform: pf.transform.clone(),
                },
            );
            i += 1;
        }
    }
    let mut sort_order: Vec<SortField> = Vec::new();
    let mut i: usize = 0;
    while i < t.sort_fields.len()
        invariant
            i <= t.sort_fields@.len(),
            sort_order@.len() == i,
            forall|k: int| 0 <= k < i ==> sort_field_of(#[trigger] sort_order@[k], t.sort_fields@[k], t.schema@),
        decreases t.sort_fields@.len() - i,
    {
        let sf = &t.sort_fields[i];
        sort_order.push(
            SortField {
                field: find_column_name(&t.schema, sf.source_id),
                direction: direction_name(sf.direction),
                null_order: null_order_name(sf.null_order),
            },
        );
        i += 1;
    }
    let (ts, op) = match &t.current_snapshot {
        Some(c) => (c.timestamp_ms, c.operation.clone()),
        None => (0, String::new()),
    };
    proof {
        reveal_strlit("table");
    }
    TableInfo {
        kind: "table",
        identifier: owned(identifier),
        location: t.location.clone(),
        uuid: t.uuid.clone(),
        format_version: t.format_version,
        current_snapshot_id: t.current_snapshot_id,
        current_snapshot_timestamp_ms: if ts > 0 {
            Some(ts)
        } else {
            None
        },
        snapshot_count: t.history_len,
        schema,
        partition_spec,
        sort_order,
        properties: sorted_properties(&t.properties),
        current_snapshot_op: op,
    }
}

/// The description of a namespace from its properties.
pub fn namespace_info(properties: &Vec<(String, String)>, identifier: &str) -> (info: NamespaceInfo)
    ensures
        info.kind@ == "namespace"@,
        info.identifier@ == identifier@,
        text_map(info.properties.map()) == property_map(properties@),
{
    proof {
        reveal_strlit("namespace");
    }
    NamespaceInfo { kind: "namespace", identifier: owned(identifier), properties: sorted_properties(properties) }
}

// ---------------------------------------------------------------------------
// Timestamps
// ---------------------------------------------------------------------------

/// The UTC calendar text that `chrono` gives for a millisecond timestamp in the
/// given format, or nothing when the timestamp is out of its range.
pub uninterp spec fn utc_millis_text(ms: i64, format: Seq<char>) -> Option<Seq<char>>;

/// Formats a millisecond Unix timestamp as UTC (`chrono::DateTime::from_timestamp_millis`,
/// then `DateTime::format` with `format`, written out). The result is named by
/// `utc_millis_text`; the calendar arithmetic and the range are not stated. Only the
/// format that `describe` uses is admitted, since an invalid format makes the
/// writing panic.
#[verifier::external_body]
fn format_utc_millis(ms: i64, format: &str) -> (r: Option<String>)
    requires
        format@ == "%Y-%m-%dT%H:%M:%SZ"@,
    ensures
        match r {
            Some(s) => utc_millis_text(ms, format@) == Some(s@),
            None => utc_millis_text(ms, format@) is None,
        },
{
    match chrono::DateTime::from_timestamp_millis(ms) {
        Some(dt) => Some(dt.format(format).to_string()),
        None => None,
    }
}

/// How a snapshot time is shown: nothing for zero, the UTC time where it can be
/// given, else the raw number.
pub open spec fn timestamp_text(ms: i64) -> Seq<char> {
    if ms == 0 {
        Seq::empty()
    } else {
        match utc_millis_text(ms, "%Y-%m-%dT%H:%M:%SZ"@) {
            Some(t) => t,
            None => int_text(ms as int),
        }
    }
}

/// How a snapshot time is shown once its UTC formatting is known: that text, or the
/// raw number of milliseconds when it could not be formatted.
pub fn timestamp_or_millis(ms: i64, formatted: Option<String>) -> (s: String)
    ensures
        s@ == match formatted {
            Some(t) => t@,
            None => int_text(ms as int),
        },
{
    match formatted {
        Some(t) => t,
        None => i64_text(ms),
    }
}

/// How a snapshot time is shown.
pub fn fmt_timestamp(ms: i64) -> (s: String)
    ensures
        s@ == timestamp_text(ms),
{
    if ms == 0 {
        return String::new();
    }
    timestamp_or_millis(ms, format_utc_millis(ms, "%Y-%m-%dT%H:%M:%SZ"))
}

// ---------------------------------------------------------------------------
// Text
// ---------------------------------------------------------------------------

/// The larger of two widths.
pub open spec fn wider(a: nat, b: nat) -> nat {
    if a >= b {
        a
    } else {
        b
    }
}

/// The width of the name column: the longest name in bytes, at least 4.
pub open spec fn name_width(fs: Seq<SchemaField>) -> nat
    decreases fs.len(),
{
    if fs.len() == 0 {
        4
    } else {
        wider(name_width(fs.drop_last()), byte_len(fs.last().name@))
    }
}

/// The width of the type column: the longest type in bytes, at least 4.
pub open spec fn type_width(fs: Seq<SchemaField>) -> nat
    decreases fs.len(),
{
    if fs.len() == 0 {
        4
    } else {
        wider(type_width(fs.drop_last()), byte_len(fs.last().field_type@))
    }
}

/// The width of the key column: the longest key in bytes.
pub open spec fn key_width(e: Seq<(String, String)>) -> nat
    decreases e.len(),
{
    if e.len() == 0 {
        0
    } else {
        wider(key_width(e.drop_last()), byte_len(e.last().0@))
    }
}

/// The schema header line.
pub open spec fn schema_header(nw: nat, tw: nat) -> Seq<char> {
    "  "@ + pad_left_spec("id"@, 4) + "  "@ + pad_right_spec("name"@, nw) + "  "@ + pad_right_spec("type"@, tw)
        + "  required\n"@
}

/// The line of one schema column.
pub open spec fn schema_line(f: SchemaField, nw: nat, tw: nat) -> Seq<char> {
    "  "@ + pad_left_spec(int_text(f.id as int), 4) + "  "@ + pad_right_spec(f.name@, nw) + "  "@
        + pad_right_spec(f.field_type@, tw) + "  "@ + bool_text(f.required) + "\n"@
}

/// The lines of the schema columns.
pub open spec fn schema_lines(fs: Seq<SchemaField>, nw: nat, tw: nat) -> Seq<char>
    decreases fs.len(),
{
    if fs.len() == 0 {
        Seq::empty()
    } else {
        schema_lines(fs.drop_last(), nw, tw) + schema_line(fs.last(), nw, tw)
    }
}

/// The lines of the partition fields.
pub open spec fn partition_lines(fs: Seq<PartitionField>) -> Seq<char>
    decreases fs.len(),
{
    if fs.len() == 0 {
        Seq::empty()
    } else {
        partition_lines(fs.drop_last()) + "  "@ + fs.last().name@ + "  "@ + fs.last().transform@ + "\n"@
    }
}

/// The lines of the sort fields.
pub open spec fn sort_lines(fs: Seq<SortField>) -> Seq<char>
    decreases fs.len(),
{
    if fs.len() == 0 {
        Seq::empty()
    } else {
        sort_lines(fs.drop_last()) + "  "@ + fs.last().field@ + "  "@ + fs.last().direction@ + "  "@
            + fs.last().null_order@ + "\n"@
    }
}

/// The lines of the properties, keys padded to `kw`.
pub open spec fn property_lines(e: Seq<(String, String)>, kw: nat) -> Seq<char>
    decreases e.len(),
{
    if e.len() == 0 {
        Seq::empty()
    } else {
        property_lines(e.drop_last(), kw) + "  "@ + pad_right_spec(e.last().0@, kw) + "  "@ + e.last().1@
            + "\n"@
    }
}

/// The properties section: nothing when there are none.
pub open spec fn properties_section(e: Seq<(String, String)>) -> Seq<char> {
    if e.len() == 0 {
        Seq::empty()
    } else {
        "\nproperties:\n"@ + property_lines(e, key_width(e))
    }
}

/// The text of a described table.
pub open spec fn table_text(t: TableInfo) -> Seq<char> {
    let fs = t.schema@;
    "table:     "@ + t.identifier@ + "\n"@ + "location:  "@ + t.location@ + "\n"@ + "uuid:      "@
        + t.uuid@ + "\n"@ + "format:    v"@ + decimal(t.format_version as nat) + "\n"@ + match t.current_snapshot_id {
        Some(id) => "snapshot:  "@ + int_text(id as int) + " ("@ + t.current_snapshot_op@ + ", "@ + match t.current_snapshot_timestamp_ms {
            Some(ms) => timestamp_text(ms),
            None => Seq::empty(),
        } + ")\n"@,
        None => Seq::empty(),
    } + "history:   "@ + decimal(t.snapshot_count as nat) + " snapshots\n"@ + "\nschema:\n"@
        + schema_header(name_width(fs), type_width(fs)) + schema_lines(fs, name_width(fs), type_width(fs))
        + if t.partition_spec@.len() == 0 {
        Seq::empty()
    } else {
        "\npartition:\n"@ + partition_lines(t.partition_spec@)
    } + if t.sort_order@.len() == 0 {
        Seq::empty()
    } else {
        "\nsort-order:\n"@ + sort_lines(t.sort_order@)
    } + properties_section(t.properties.entry_seq())
}

/// The text of a described namespace.
pub open spec fn namespace_text(n: NamespaceInfo) -> Seq<char> {
    "namespace:  "@ + n.identifier@ + "\n"@ + properties_section(n.properties.entry_seq())
}

/// Appends the properties section.
fn push_properties(out: &mut String, m: &SortedMap<String>)
    ensures
        final(out)@ == old(out)@ + properties_section(m.entry_seq()),
{
    let e = m.entries();
    if e.len() == 0 {
        assert(old(out)@ + properties_section(m.entry_seq()) =~= old(out)@);
        return;
    }
    let mut kw: usize = 0;
    let mut i: usize = 0;
    while i < e.len()
        invariant
            i <= e@.len(),
            kw == key_width(e@.take(i as int)),
        decreases e@.len() - i,
    {
        let l = e[i].0.as_str().len();
        proof {
            let t = e@.take(i + 1);
            assert(t.drop_last() =~= e@.take(i as int));
            assert(t.last() == e@[i as int]);
        }
        if l > kw {
            kw = l;
        }
        i += 1;
    }
    assert(e@.take(i as int) =~= e@);
    push_str(out, "\nproperties:\n");
    let ghost head = out@;
    let mut i: usize = 0;
    while i < e.len()
        invariant
            i <= e@.len(),
            kw == key_width(e@),
            out@ == head + property_lines(e@.take(i as int), kw as nat),
        decreases e@.len() - i,
    {
        push_str(out, "  ");
        push_padded_right(out, e[i].0.as_str(), kw);
        push_str(out, "  ");
        push_str(out, e[i].1.as_str());
        push_str(out, "\n");
        proof {
            let t = e@.take(i + 1);
            assert(t.drop_last() =~= e@.take(i as int));
            assert(t.last() == e@[i as int]);
        }
        i += 1;
    }
    assert(e@.take(i as int) =~= e@);
    assert(out@ =~= old(out)@ + properties_section(m.entry_seq()));
}

/// Appends the schema section: header and one line per column.
fn push_schema(out: &mut String, fs: &Vec<SchemaField>)
    ensures
        final(out)@ == old(out)@ + schema_header(name_width(fs@), type_width(fs@)) + schema_lines(
            fs@,
            name_width(fs@),
            type_width(fs@),
        ),
{
    let mut nw: usize = 4;
    let mut tw: usize = 4;
    let mut i: usize = 0;
    while i < fs.len()
        invariant
            i <= fs@.len(),
            nw == name_width(fs@.take(i as int)),
            tw == type_width(fs@.take(i as int)),
        decreases fs@.len() - i,
    {
        let a = fs[i].name.as_str().len();
        let b = fs[i].field_type.as_str().len();
        proof {
            let t = fs@.take(i + 1);
            assert(t.drop_last() =~= fs@.take(i as int));
            assert(t.last() == fs@[i as int]);
        }
        if a > nw {
            nw = a;
        }
        if b > tw {
            tw = b;
        }
        i += 1;
    }
    assert(fs@.take(i as int) =~= fs@);
    let ghost start = out@;
    push_str(out, "  ");
    push_padded_left(out, "id", 4);
    push_str(out, "  ");
    push_padded_right(out, "name", nw);
    push_str(out, "  ");
    push_padded_right(out, "type", tw);
    push_str(out, "  required\n");
    assert(out@ =~= start + schema_header(nw as nat, tw as nat));
    let ghost head = out@;
    let mut i: usize = 0;
    while i < fs.len()
        invariant
            i <= fs@.len(),
            nw == name_width(fs@),
            tw == type_width(fs@),
            out@ == head + schema_lines(fs@.take(i as int), nw as nat, tw as nat),
        decreases fs@.len() - i,
    {
        let f = &fs[i];
        let ghost before = out@;
        push_str(out, "  ");
        let id = i64_text(f.id as i64);
        push_padded_left(out, id.as_str(), 4);
        push_str(out, "  ");
        push_padded_right(out, f.name.as_str(), nw);
        push_str(out, "  ");
        push_padded_right(out, f.field_type.as_str(), tw);
        push_str(out, "  ");
        let r = bool_str(f.required);
        push_str(out, r.as_str());
        push_str(out, "\n");
        proof {
            assert(out@ =~= before + schema_line(*f, nw as nat, tw as nat));
            let t = fs@.take(i + 1);
            assert(t.drop_last() =~= fs@.take(i as int));
            assert(t.last() == fs@[i as int]);
        }
        i += 1;
    }
    assert(fs@.take(i as int) =~= fs@);
}

/// Appends the partition lines.
fn push_partition_lines(out: &mut String, fs: &Vec<PartitionField>)
    ensures
        final(out)@ == old(out)@ + partition_lines(fs@),
{
    let mut i: usize = 0;
    while i < fs.len()
        invariant
            i <= fs@.len(),
            out@ == old(out)@ + partition_lines(fs@.take(i as int)),
        decreases fs@.len() - i,
    {
        push_str(out, "  ");
        push_str(out, fs[i].name.as_str());
        push_str(out, "  ");
        push_str(out, fs[i].transform.as_str());
        push_str(out, "\n");
        proof {
            let t = fs@.take(i + 1);
            assert(t.drop_last() =~= fs@.take(i as int));
            assert(t.last() == fs@[i as int]);
        }
        i += 1;
    }
    assert(fs@.take(i as int) =~= fs@);
}

/// Appends the sort lines.
fn push_sort_lines(out: &mut String, fs: &Vec<SortField>)
    ensures
        final(out)@ == old(out)@ + sort_lines(fs@),
{
    let mut i: usize = 0;
    while i < fs.len()
        invariant
            i <= fs@.len(),
            out@ == old(out)@ + sort_lines(fs@.take(i as int)),
        decreases fs@.len() - i,
    {
        push_str(out, "  ");
        push_str(out, fs[i].field.as_str());
        push_str(out, "  ");
        push_str(out, fs[i].direction.as_str());
        push_str(out, "  ");
        push_str(out, fs[i].null_order.as_str());
        push_str(out, "\n");
        proof {
            let t = fs@.take(i + 1);
            assert(t.drop_last() =~= fs@.take(i as int));
            assert(t.last() == fs@[i as int]);
        }
        i += 1;
    }
    assert(fs@.take(i as int) =~= fs@);
}

impl DisplayText for TableInfo {
    open spec fn spec_text(&self) -> Seq<char> {
        table_text(*self)
    }

    fn fmt_text(&self) -> (s: String) {
        let mut s = owned("table:     ");
        push_str(&mut s, self.identifier.as_str());
        push_str(&mut s, "\n");
        push_str(&mut s, "location:  ");
        push_str(&mut s, self.location.as_str());
        push_str(&mut s, "\n");
        push_str(&mut s, "uuid:      ");
        push_str(&mut s, self.uuid.as_str());
        push_str(&mut s, "\n");
        push_str(&mut s, "format:    v");
        let v = u64_text(self.format_version as u64);
        push_str(&mut s, v.as_str());
        push_str(&mut s, "\n");
        let ghost a = s@;
        assert(a =~= "table:     "@ + self.identifier@ + "\n"@ + "location:  "@ + self.location@ + "\n"@
            + "uuid:      "@ + self.uuid@ + "\n"@ + "format:    v"@ + decimal(self.format_version as nat)
            + "\n"@);
        let ghost snap = match self.current_snapshot_id {
            Some(id) => "snapshot:  "@ + int_text(id as int) + " ("@ + self.current_snapshot_op@ + ", "@
                + match self.current_snapshot_timestamp_ms {
                Some(ms) => timestamp_text(ms),
                None => Seq::empty(),
            } + ")\n"@,
            None => Seq::<char>::empty(),
        };
        match self.current_snapshot_id {
            Some(id) => {
                let ts = match self.current_snapshot_timestamp_ms {
                    Some(ms) => fmt_timestamp(ms),
                    None => String::new(),
                };
                push_str(&mut s, "snapshot:  ");
                let n = i64_text(id);
                push_str(&mut s, n.as_str());
                push_str(&mut s, " (");
                push_str(&mut s, self.current_snapshot_op.as_str());
                push_str(&mut s, ", ");
                push_str(&mut s, ts.as_str());
                push_str(&mut s, ")\n");
            },
            None => {},
        }
        assert(s@ =~= a + snap);
        let ghost a2 = s@;
        push_str(&mut s, "history:   ");
        let c = u64_text(self.snapshot_count as u64);
        push_str(&mut s, c.as_str());
        push_str(&mut s, " snapshots\n");
        push_str(&mut s, "\nschema:\n");
        let ghost b = s@;
        assert(b =~= a2 + "history:   "@ + decimal(self.snapshot_count as nat) + " snapshots\n"@
            + "\nschema:\n"@);
        push_schema(&mut s, &self.schema);
        let ghost c2 = s@;
        let ghost part = if self.partition_spec@.len() == 0 {
            Seq::<char>::empty()
        } else {
            "\npartition:\n"@ + partition_lines(self.partition_spec@)
        };
        if self.partition_spec.len() > 0 {
            push_str(&mut s, "\npartition:\n");
            push_partition_lines(&mut s, &self.partition_spec);
        }
        assert(s@ =~= c2 + part);
        let ghost d = s@;
        let ghost sort = if self.sort_order@.len() == 0 {
            Seq::<char>::empty()
        } else {
            "\nsort-order:\n"@ + sort_lines(self.sort_order@)
        };
        if self.sort_order.len() > 0 {
            push_str(&mut s, "\nsort-order:\n");
            push_sort_lines(&mut s, &self.sort_order);
        }
        assert(s@ =~= d + sort);
        let ghost e = s@;
        push_properties(&mut s, &self.properties);
        proof {
            let fs = self.schema@;
            assert(c2 =~= b + schema_header(name_width(fs), type_width(fs)) + schema_lines(
                fs,
                name_width(fs),
                type_width(fs),
            ));
            assert(s@ =~= a + snap + "history:   "@ + decimal(self.snapshot_count as nat) + " snapshots\n"@
                + "\nschema:\n"@ + schema_header(name_width(fs), type_width(fs)) + schema_lines(
                fs,
                name_width(fs),
                type_width(fs),
            ) + part + sort + properties_section(self.properties.entry_seq()));
            assert(s@ =~= table_text(*self));
        }
        s
    }
}

impl DisplayText for NamespaceInfo {
    open spec fn spec_text(&self) -> Seq<char> {
        namespace_text(*self)
    }

    fn fmt_text(&self) -> (s: String) {
        let mut s = owned("namespace:  ");
        push_str(&mut s, self.identifier.as_str());
        push_str(&mut s, "\n");
        push_properties(&mut s, &self.properties);
        assert(s@ =~= namespace_text(*self));
        s
    }
}

impl DisplayText for Described {
    open spec fn spec_text(&self) -> Seq<char> {
        match self {
            Described::Table(t) => table_text(*t),
            Described::Namespace(n) => namespace_text(*n),
        }
    }

    fn fmt_text(&self) -> (s: String) {
        match self {
            Described::Table(t) => t.fmt_text(),
            Described::Namespace(n) => n.fmt_text(),
        }
    }
}

// ---------------------------------------------------------------------------
// What to look up
// ---------------------------------------------------------------------------

/// In which order `describe` looks the identifier up.
#[derive(Debug, Clone, Copy, PartialEq, Eq, Structural)]
pub enum DescribeOrder {
    /// As a table; failing that is an error.
    TableOnly,
    /// As a namespace; failing that is an error.
    NamespaceOnly,
    /// As a table first, quietly falling back to a namespace.
    TableThenNamespace,
}

/// In which order `describe` looks the identifier up: as asked, and for any entity
/// as a table first when it has at least two parts.
pub fn describe_order(parts: usize, entity: EntityType) -> (o: DescribeOrder)
    ensures
        o == match entity {
            EntityType::Table => DescribeOrder::TableOnly,
            EntityType::Namespace => DescribeOrder::NamespaceOnly,
            EntityType::Any => if parts >= 2 {
                DescribeOrder::TableThenNamespace
            } else {
                DescribeOrder::NamespaceOnly
            },
        },
{
    match entity {
        EntityType::Table => DescribeOrder::TableOnly,
        EntityType::Namespace => DescribeOrder::NamespaceOnly,
        EntityType::Any => if parts >= 2 {
            DescribeOrder::TableThenNamespace
        } else {
            DescribeOrder::NamespaceOnly
        },
    }
}

} // verus!
