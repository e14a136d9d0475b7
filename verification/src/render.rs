//! Rendering rows of cells as text: aligned columns for a terminal, plain
//! tab-separated values for pipes.
use vstd::prelude::*;

use crate::text::{
    bool_str, bool_text, decimal, i64_text, int_text, join, pad_left_spec, pad_right_spec,
    push_padded_left, push_padded_right, push_str, u64_text, views,
};

verus! {

/// One value in a rendered table.
pub enum Cell {
    Str(String),
    Int(i64),
    UInt(u64),
    Bool(bool),
    Null,
}

/// What a cell holds, as a mathematical value.
pub ghost enum CellView {
    Str(Seq<char>),
    Int(i64),
    UInt(u64),
    Bool(bool),
    Null,
}

impl View for Cell {
    type V = CellView;

    open spec fn view(&self) -> CellView {
        match self {
            Cell::Str(s) => CellView::Str(s@),
            Cell::Int(n) => CellView::Int(*n),
            Cell::UInt(n) => CellView::UInt(*n),
            Cell::Bool(b) => CellView::Bool(*b),
            Cell::Null => CellView::Null,
        }
    }
}

/// The text a cell is shown as.
pub open spec fn cell_text(c: CellView) -> Seq<char> {
    match c {
        CellView::Str(s) => s,
        CellView::Int(n) => int_text(n as int),
        CellView::UInt(n) => decimal(n as nat),
        CellView::Bool(b) => bool_text(b),
        CellView::Null => Seq::empty(),
    }
}

/// Whether a cell holds a number.
pub open spec fn cell_is_numeric(c: CellView) -> bool {
    c is Int || c is UInt
}

/// The views of a row of cells.
pub open spec fn row_view(r: Seq<Cell>) -> Seq<CellView> {
    r.map_values(|c: Cell| c@)
}

impl Cell {
    /// The text this cell is shown as.
    pub fn display(&self) -> (s: String)
        ensures
            s@ == cell_text(self@),
    {
        match self {
            Cell::Str(s) => s.clone(),
            Cell::Int(n) => i64_text(*n),
            Cell::UInt(n) => u64_text(*n),
            Cell::Bool(b) => bool_str(*b),
            Cell::Null => String::new(),
        }
    }

    /// Whether this cell holds a number.
    pub fn is_numeric(&self) -> (b: bool)
        ensures
            b == cell_is_numeric(self@),
    {
        match self {
            Cell::Int(_) | Cell::UInt(_) => true,
            _ => false,
        }
    }
}

/// The texts of string slices.
pub open spec fn str_views(v: Seq<&str>) -> Seq<Seq<char>> {
    v.map_values(|s: &str| s@)
}

/// `pick` chooses, for each item of `compact`, a distinct position of `full` that
/// holds the same item.
pub open spec fn columns_within<A>(compact: Seq<A>, full: Seq<A>, pick: Seq<int>) -> bool {
    &&& pick.len() == compact.len()
    &&& forall|j: int| 0 <= j < pick.len() ==> 0 <= #[trigger] pick[j] < full.len() && compact[j] == full[pick[j]]
    &&& forall|i: int, j: int| 0 <= i < j < pick.len() ==> #[trigger] pick[i] != #[trigger] pick[j]
}

/// The positions `0 .. n` in order.
pub open spec fn all_columns(n: nat) -> Seq<int> {
    Seq::new(n, |i: int| i)
}

/// Rows that render as a table with fixed headers.
pub trait Tabular {
    /// The column headers.
    spec fn spec_headers(verbose: bool) -> Seq<Seq<char>>;

    /// The cells of this row.
    spec fn spec_row(&self, verbose: bool) -> Seq<CellView>;

    /// Every row has one cell per header.
    proof fn lemma_row_width(&self, verbose: bool)
        ensures
            self.spec_row(verbose).len() == Self::spec_headers(verbose).len(),
    ;

    /// For each column of the compact layout, the column of the verbose layout it shows.
    spec fn compact_columns() -> Seq<int>;

    /// The verbose layout shows every column of the compact one: each compact column is
    /// a distinct verbose column, under the same header and with the same cell.
    proof fn lemma_verbose_shows_compact_columns(&self)
        ensures
            columns_within(Self::spec_headers(false), Self::spec_headers(true), Self::compact_columns()),
            columns_within(self.spec_row(false), self.spec_row(true), Self::compact_columns()),
    ;

    /// The column headers.
    fn headers(verbose: bool) -> (h: Vec<&'static str>)
        ensures
            str_views(h@) == Self::spec_headers(verbose),
    ;

    /// The cells of this row.
    fn row(&self, verbose: bool) -> (r: Vec<Cell>)
        ensures
            row_view(r@) == self.spec_row(verbose),
    ;
}

/// Items that render as free-form text.
pub trait DisplayText {
    /// The text of this item.
    spec fn spec_text(&self) -> Seq<char>;

    /// The text of this item.
    fn fmt_text(&self) -> (s: String)
        ensures
            s@ == self.spec_text(),
    ;
}

/// Rendering options.
#[derive(Debug, Clone, Copy, Default)]
pub struct RenderOpts {
    pub verbose: bool,
}

// ---------------------------------------------------------------------------
// Specification of the layouts
// ---------------------------------------------------------------------------

/// The number of UTF-8 bytes of a text, as `str::len` reports it; column widths are
/// measured in it.
pub open spec fn byte_len(s: Seq<char>) -> nat {
    (vstd::utf8::encode_utf8(s).len() as usize) as nat
}

/// Lines, each followed by a newline.
pub open spec fn lines_text(lines: Seq<Seq<char>>) -> Seq<char>
    decreases lines.len(),
{
    if lines.len() == 0 {
        Seq::empty()
    } else {
        lines_text(lines.drop_last()) + lines.last() + "\n"@
    }
}

/// A cell as tab-separated text shows it: a tab inside the cell becomes a space, so
/// that exactly one tab stands between two columns.
pub open spec fn tsv_cell(s: Seq<char>) -> Seq<char> {
    s.map_values(|c: char| if c == '\t' { ' ' } else { c })
}

/// One tab-separated line: the cells, tabs inside them replaced, joined by tabs.
pub open spec fn tsv_line(cells: Seq<Seq<char>>) -> Seq<char> {
    join(cells.map_values(|c: Seq<char>| tsv_cell(c)), "\t"@)
}

/// Tab-separated text: the header line, then one line per row.
pub open spec fn tsv_spec(headers: Seq<Seq<char>>, rows: Seq<Seq<Seq<char>>>) -> Seq<char> {
    lines_text(seq![tsv_line(headers)] + rows.map_values(|r: Seq<Seq<char>>| tsv_line(r)))
}

/// The width of column `c`: the widest of its header and its cells (of the rows
/// that reach it), in bytes.
pub open spec fn col_width(header: Seq<char>, rows: Seq<Seq<Seq<char>>>, c: int) -> nat
    decreases rows.len(),
{
    if rows.len() == 0 {
        byte_len(header)
    } else {
        let w = col_width(header, rows.drop_last(), c);
        let x = if c < rows.last().len() {
            byte_len(rows.last()[c])
        } else {
            0
        };
        if w >= x {
            w
        } else {
            x
        }
    }
}

/// The width of every column.
pub open spec fn col_widths(headers: Seq<Seq<char>>, rows: Seq<Seq<Seq<char>>>) -> Seq<nat> {
    Seq::new(headers.len(), |c: int| col_width(headers[c], rows, c))
}

/// One cell laid out in column `i`: numbers right-aligned, text left-aligned, and
/// the last column left unpadded when it holds text.
pub open spec fn fmt_cell(cell: Seq<char>, i: int, widths: Seq<nat>, numeric: Seq<bool>) -> Seq<char> {
    if i == widths.len() - 1 && !numeric[i] {
        cell
    } else if numeric[i] {
        pad_left_spec(cell, widths[i])
    } else {
        pad_right_spec(cell, widths[i])
    }
}

/// One laid-out line: the cells separated by two spaces.
pub open spec fn padded_line(cells: Seq<Seq<char>>, widths: Seq<nat>, numeric: Seq<bool>) -> Seq<char> {
    join(Seq::new(cells.len(), |i: int| fmt_cell(cells[i], i, widths, numeric)), "  "@)
}

/// Aligned text: the header line, then one line per row.
pub open spec fn padded_spec(headers: Seq<Seq<char>>, rows: Seq<Seq<Seq<char>>>, numeric: Seq<bool>) -> Seq<
    char,
> {
    let w = col_widths(headers, rows);
    lines_text(
        seq![padded_line(headers, w, numeric)] + rows.map_values(
            |r: Seq<Seq<char>>| padded_line(r, w, numeric),
        ),
    )
}

/// The texts of each row.
pub open spec fn rows_views(rows: Seq<Vec<String>>) -> Seq<Seq<Seq<char>>> {
    rows.map_values(|r: Vec<String>| views(r@))
}

/// No row has more than `n` cells.
pub open spec fn rows_fit(rows: Seq<Seq<Seq<char>>>, n: nat) -> bool {
    forall|r: int| 0 <= r < rows.len() ==> #[trigger] rows[r].len() <= n
}

/// Every row has exactly `n` cells.
pub open spec fn rows_have_width(rows: Seq<Seq<Seq<char>>>, n: nat) -> bool {
    forall|r: int| 0 <= r < rows.len() ==> #[trigger] rows[r].len() == n
}

// ---------------------------------------------------------------------------
// Lemmas
// ---------------------------------------------------------------------------

/// Appending one line to the text of some lines.
proof fn lemma_lines_push(lines: Seq<Seq<char>>, l: Seq<char>)
    ensures
        lines_text(lines.push(l)) == lines_text(lines) + l + "\n"@,
{
    assert(lines.push(l).drop_last() =~= lines);
}

/// Joining one more element onto a non-empty prefix.
proof fn lemma_join_take(s: Seq<Seq<char>>, sep: Seq<char>, i: int)
    requires
        0 <= i < s.len(),
    ensures
        join(s.take(i + 1), sep) == if i == 0 {
            s[0]
        } else {
            join(s.take(i), sep) + sep + s[i]
        },
{
    assert(s.take(i + 1).drop_last() =~= s.take(i));
    assert(s.take(i + 1).last() == s[i]);
}

// ---------------------------------------------------------------------------
// Layout
// ---------------------------------------------------------------------------

/// The texts of string slices joined with `sep`.
pub fn join_strs(parts: &[&str], sep: &str) -> (out: String)
    ensures
        out@ == join(str_views(parts@), sep@),
{
    let mut out = String::new();
    let mut i: usize = 0;
    while i < parts.len()
        invariant
            i <= parts@.len(),
            out@ == join(str_views(parts@).take(i as int), sep@),
        decreases parts@.len() - i,
    {
        proof {
            lemma_join_take(str_views(parts@), sep@, i as int);
        }
        if i > 0 {
            push_str(&mut out, sep);
        }
        push_str(&mut out, parts[i]);
        i += 1;
        proof {
            if i == 1 {
                assert(out@ =~= str_views(parts@)[0]);
            }
        }
    }
    assert(str_views(parts@).take(i as int) =~= str_views(parts@));
    out
}

/// A cell's text with every tab replaced by a space.
pub fn tsv_cell_text(s: &str) -> (r: String)
    ensures
        r@ == tsv_cell(s@),
{
    let v = crate::text::chars_of(s);
    let mut r = String::new();
    let mut i: usize = 0;
    while i < v.len()
        invariant
            i <= v@.len(),
            v@ == s@,
            r@ == tsv_cell(v@.take(i as int)),
        decreases v@.len() - i,
    {
        let c = if v[i] == '\t' {
            ' '
        } else {
            v[i]
        };
        crate::text::push_char(&mut r, c);
        assert(tsv_cell(v@.take(i + 1)) =~= tsv_cell(v@.take(i as int)).push(c));
        i += 1;
    }
    assert(v@.take(i as int) =~= v@);
    r
}

/// One tab-separated line of the given cells.
fn tsv_line_text(cells: &Vec<String>) -> (line: String)
    ensures
        line@ == tsv_line(views(cells@)),
{
    let mut clean: Vec<String> = Vec::new();
    let mut i: usize = 0;
    while i < cells.len()
        invariant
            i <= cells@.len(),
            views(clean@) == views(cells@).take(i as int).map_values(|c: Seq<char>| tsv_cell(c)),
        decreases cells@.len() - i,
    {
        let ghost before = clean@;
        clean.push(tsv_cell_text(cells[i].as_str()));
        assert(views(clean@) =~= views(before).push(tsv_cell(cells@[i as int]@)));
        i += 1;
        assert(views(cells@).take(i as int).map_values(|c: Seq<char>| tsv_cell(c)) =~= views(cells@).take(
            i - 1,
        ).map_values(|c: Seq<char>| tsv_cell(c)).push(tsv_cell(cells@[i - 1]@)));
    }
    assert(views(cells@).take(i as int) =~= views(cells@));
    crate::text::join_strings(clean.as_slice(), "\t")
}

/// Writes `headers` and `displayed` as tab-separated lines; a tab inside a cell is
/// written as a space.
pub fn write_tsv(out: &mut String, headers: &[&str], displayed: &[Vec<String>])
    ensures
        final(out)@ == old(out)@ + tsv_spec(str_views(headers@), rows_views(displayed@)),
{
    let ghost all = seq![tsv_line(str_views(headers@))] + rows_views(displayed@).map_values(
        |r: Seq<Seq<char>>| tsv_line(r),
    );
    let hv = owned_strs(headers);
    let h = tsv_line_text(&hv);
    push_str(out, h.as_str());
    push_str(out, "\n");
    proof {
        lemma_lines_push(Seq::empty(), all[0]);
        assert(all.take(1) =~= Seq::<Seq<char>>::empty().push(all[0]));
        assert(out@ =~= old(out)@ + lines_text(all.take(1)));
    }
    let mut r: usize = 0;
    while r < displayed.len()
        invariant
            r <= displayed@.len(),
            all.len() == displayed@.len() + 1,
            all == seq![tsv_line(str_views(headers@))] + rows_views(displayed@).map_values(
                |r: Seq<Seq<char>>| tsv_line(r),
            ),
            out@ == old(out)@ + lines_text(all.take(r + 1)),
        decreases displayed@.len() - r,
    {
        let line = tsv_line_text(&displayed[r]);
        push_str(out, line.as_str());
        push_str(out, "\n");
        proof {
            assert(all[r + 1] == line@);
            assert(all.take(r + 2) =~= all.take(r + 1).push(all[r + 1]));
            lemma_lines_push(all.take(r + 1), all[r + 1]);
            assert(out@ =~= old(out)@ + lines_text(all.take(r + 2)));
        }
        r += 1;
    }
    assert(all.take(r + 1) =~= all);
}

/// The width of every column of `headers` and `displayed`.
fn column_widths(headers: &[&str], displayed: &[Vec<String>]) -> (widths: Vec<usize>)
    requires
        rows_fit(rows_views(displayed@), headers@.len()),
    ensures
        widths@.len() == headers@.len(),
        forall|c: int|
            0 <= c < headers@.len() ==> widths@[c] == col_widths(
                str_views(headers@),
                rows_views(displayed@),
            )[c],
{
    let ghost hv = str_views(headers@);
    let ghost rv = rows_views(displayed@);
    let mut widths: Vec<usize> = Vec::new();
    let mut c: usize = 0;
    while c < headers.len()
        invariant
            c <= headers@.len(),
            hv == str_views(headers@),
            widths@.len() == c,
            forall|j: int| 0 <= j < c ==> widths@[j] == col_width(hv[j], rv.take(0), j),
        decreases headers@.len() - c,
    {
        let ghost before = widths@;
        widths.push(headers[c].len());
        proof {
            assert(rv.take(0).len() == 0);
            assert(hv[c as int] == headers@[c as int]@);
            assert forall|j: int| 0 <= j < c + 1 implies widths@[j] == col_width(hv[j], rv.take(0), j) by {
                if j < c {
                    assert(widths@[j] == before[j]);
                }
            }
        }
        c += 1;
    }
    let mut r: usize = 0;
    while r < displayed.len()
        invariant
            r <= displayed@.len(),
            rv == rows_views(displayed@),
            hv == str_views(headers@),
            rows_fit(rv, headers@.len()),
            widths@.len() == headers@.len(),
            forall|j: int| 0 <= j < headers@.len() ==> widths@[j] == col_width(hv[j], rv.take(r as int), j),
        decreases displayed@.len() - r,
    {
        let row = &displayed[r];
        assert(rv[r as int] == views(row@));
        assert(rv[r as int].len() <= headers@.len());
        let mut i: usize = 0;
        while i < row.len()
            invariant
                i <= row@.len(),
                r < displayed@.len(),
                rv == rows_views(displayed@),
                hv == str_views(headers@),
                row@.len() <= headers@.len(),
                rv[r as int] == views(row@),
                widths@.len() == headers@.len(),
                forall|j: int|
                    0 <= j < headers@.len() ==> widths@[j] == if j < i {
                        col_width(hv[j], rv.take(r + 1), j)
                    } else {
                        col_width(hv[j], rv.take(r as int), j)
                    },
            decreases row@.len() - i,
        {
            proof {
                assert(rv.take(r + 1).drop_last() =~= rv.take(r as int));
                assert(rv.take(r + 1).last() == rv[r as int]);
                assert(rv[r as int][i as int] == row@[i as int]@);
            }
            let len = row[i].as_str().len();
            if len > widths[i] {
                widths.set(i, len);
            }
            i += 1;
        }
        proof {
            assert(rv.take(r + 1).drop_last() =~= rv.take(r as int));
            assert(rv.take(r + 1).last() == rv[r as int]);
        }
        r += 1;
    }
    proof {
        assert(rv.take(r as int) =~= rv);
    }
    widths
}

/// The nat widths of usize widths.
pub open spec fn nat_widths(w: Seq<usize>) -> Seq<nat> {
    w.map_values(|x: usize| x as nat)
}

/// Lays out one line of cells in columns of `widths`.
pub fn write_row(line: &mut String, cells: &[String], widths: &[usize], numeric: &[bool])
    requires
        cells@.len() <= widths@.len(),
        numeric@.len() >= cells@.len(),
    ensures
        final(line)@ == old(line)@ + padded_line(views(cells@), nat_widths(widths@), numeric@),
{
    let ghost w = nat_widths(widths@);
    let ghost fmt = Seq::new(
        cells@.len(),
        |i: int| fmt_cell(views(cells@)[i], i, w, numeric@),
    );
    let last: usize = if widths.len() == 0 { 0 } else { widths.len() - 1 };
    let mut i: usize = 0;
    while i < cells.len()
        invariant
            i <= cells@.len(),
            cells@.len() <= widths@.len(),
            numeric@.len() >= cells@.len(),
            w == nat_widths(widths@),
            last == widths@.len() - 1 || (widths@.len() == 0 && last == 0),
            fmt == Seq::new(
                cells@.len(),
                |i: int| fmt_cell(views(cells@)[i], i, w, numeric@),
            ),
            line@ == old(line)@ + join(fmt.take(i as int), "  "@),
        decreases cells@.len() - i,
    {
        let ghost before = line@;
        proof {
            lemma_join_take(fmt, "  "@, i as int);
        }
        if i > 0 {
            push_str(line, "  ");
        }
        let ghost mid = line@;
        if i == last && !numeric[i] {
            push_str(line, cells[i].as_str());
        } else if numeric[i] {
            push_padded_left(line, cells[i].as_str(), widths[i]);
        } else {
            push_padded_right(line, cells[i].as_str(), widths[i]);
        }
        proof {
            assert(line@ == mid + fmt[i as int]);
            if i == 0 {
                assert(line@ =~= old(line)@ + fmt[0]);
            } else {
                assert(line@ =~= old(line)@ + (join(fmt.take(i as int), "  "@) + "  "@ + fmt[i as int]));
            }
        }
        i += 1;
    }
    assert(fmt.take(i as int) =~= fmt);
}

/// Owned copies of string slices.
fn owned_strs(v: &[&str]) -> (r: Vec<String>)
    ensures
        views(r@) == str_views(v@),
{
    let mut r: Vec<String> = Vec::new();
    let n = v.len();
    let mut i: usize = 0;
    while i < n
        invariant
            n == v@.len(),
            i <= v@.len(),
            r@.len() == i,
            forall|k: int| 0 <= k < i ==> #[trigger] r@[k]@ == v@[k]@,
        decreases v@.len() - i,
    {
        r.push(crate::text::owned(v[i]));
        i += 1;
    }
    assert(views(r@) =~= str_views(v@));
    r
}

/// Writes `headers` and `displayed` as aligned columns; `numeric` marks the columns
/// that are right-aligned. A row may have fewer cells than there are headers.
pub fn write_padded_strings(out: &mut String, headers: &[&str], displayed: &[Vec<String>], numeric: &[bool])
    requires
        numeric@.len() >= headers@.len(),
        rows_fit(rows_views(displayed@), headers@.len()),
    ensures
        final(out)@ == old(out)@ + padded_spec(str_views(headers@), rows_views(displayed@), numeric@),
{
    let widths = column_widths(headers, displayed);
    let ghost w = col_widths(str_views(headers@), rows_views(displayed@));
    assert(nat_widths(widths@) =~= w);
    let ghost all = seq![padded_line(str_views(headers@), w, numeric@)] + rows_views(
        displayed@,
    ).map_values(|r: Seq<Seq<char>>| padded_line(r, w, numeric@));
    let hs = owned_strs(headers);
    let mut line = String::new();
    write_row(&mut line, hs.as_slice(), &widths, numeric);
    push_str(out, line.as_str());
    push_str(out, "\n");
    proof {
        lemma_lines_push(Seq::empty(), all[0]);
        assert(all.take(1) =~= Seq::<Seq<char>>::empty().push(all[0]));
        assert(out@ =~= old(out)@ + lines_text(all.take(1)));
    }
    let mut r: usize = 0;
    while r < displayed.len()
        invariant
            r <= displayed@.len(),
            numeric@.len() >= headers@.len(),
            widths@.len() == headers@.len(),
            nat_widths(widths@) == w,
            rows_fit(rows_views(displayed@), headers@.len()),
            all.len() == displayed@.len() + 1,
            all == seq![padded_line(str_views(headers@), w, numeric@)] + rows_views(
                displayed@,
            ).map_values(|r: Seq<Seq<char>>| padded_line(r, w, numeric@)),
            out@ == old(out)@ + lines_text(all.take(r + 1)),
        decreases displayed@.len() - r,
    {
        assert(rows_views(displayed@)[r as int].len() <= headers@.len());
        let mut line = String::new();
        write_row(&mut line, displayed[r].as_slice(), &widths, numeric);
        push_str(out, line.as_str());
        push_str(out, "\n");
        proof {
            assert(all[r + 1] == line@);
            assert(all.take(r + 2) =~= all.take(r + 1).push(all[r + 1]));
            lemma_lines_push(all.take(r + 1), all[r + 1]);
            assert(out@ =~= old(out)@ + lines_text(all.take(r + 2)));
        }
        r += 1;
    }
    assert(all.take(r + 1) =~= all);
}

/// Whether column `c` is numeric: there is at least one row and every row's cell
/// in it holds a number.
pub open spec fn numeric_column(cells: Seq<Seq<CellView>>, c: int) -> bool {
    cells.len() > 0 && forall|r: int| 0 <= r < cells.len() ==> #[trigger] cell_is_numeric(cells[r][c])
}

/// The numeric flag of every column.
pub open spec fn numeric_columns(cells: Seq<Seq<CellView>>, n: nat) -> Seq<bool> {
    Seq::new(n, |c: int| numeric_column(cells, c))
}

/// The cells of each row.
pub open spec fn cells_views(cells: Seq<Vec<Cell>>) -> Seq<Seq<CellView>> {
    cells.map_values(|r: Vec<Cell>| row_view(r@))
}

/// The displayed text of each cell of each row.
pub open spec fn displayed_spec(cells: Seq<Seq<CellView>>) -> Seq<Seq<Seq<char>>> {
    cells.map_values(|r: Seq<CellView>| r.map_values(|c: CellView| cell_text(c)))
}

/// Writes rows of cells as aligned columns: a column whose cells are all numbers is
/// right-aligned.
pub fn write_padded(out: &mut String, headers: &[&str], cells: &[Vec<Cell>], displayed: &[Vec<String>])
    requires
        rows_have_width(rows_views(displayed@), headers@.len()),
        forall|r: int| 0 <= r < cells@.len() ==> #[trigger] cells@[r]@.len() == headers@.len(),
    ensures
        final(out)@ == old(out)@ + padded_spec(
            str_views(headers@),
            rows_views(displayed@),
            numeric_columns(cells_views(cells@), headers@.len()),
        ),
{
    let ghost cv = cells_views(cells@);
    let mut numeric: Vec<bool> = Vec::new();
    let mut c: usize = 0;
    while c < headers.len()
        invariant
            c <= headers@.len(),
            cv == cells_views(cells@),
            forall|r: int| 0 <= r < cells@.len() ==> #[trigger] cells@[r]@.len() == headers@.len(),
            numeric@ == numeric_columns(cv, headers@.len()).take(c as int),
        decreases headers@.len() - c,
    {
        let mut all = cells.len() > 0;
        let mut r: usize = 0;
        while r < cells.len()
            invariant
                r <= cells@.len(),
                c < headers@.len(),
                cv == cells_views(cells@),
                forall|r: int| 0 <= r < cells@.len() ==> #[trigger] cells@[r]@.len() == headers@.len(),
                all == (cells@.len() > 0 && forall|q: int| 0 <= q < r ==> #[trigger] cell_is_numeric(cv[q][c as int])),
            decreases cells@.len() - r,
        {
            assert(cv[r as int] == row_view(cells@[r as int]@));
            assert(cv[r as int][c as int] == cells@[r as int]@[c as int]@);
            if !cells[r][c].is_numeric() {
                all = false;
            }
            r += 1;
        }
        numeric.push(all);
        c += 1;
        assert(numeric@ =~= numeric_columns(cv, headers@.len()).take(c as int));
    }
    assert(numeric@ =~= numeric_columns(cv, headers@.len()));
    write_padded_strings(out, headers, displayed, numeric.as_slice());
}

/// The displayed text of each cell of a row.
fn display_row(row: &Vec<Cell>) -> (d: Vec<String>)
    ensures
        views(d@) == row_view(row@).map_values(|c: CellView| cell_text(c)),
{
    let mut d: Vec<String> = Vec::new();
    let n = row.len();
    let mut i: usize = 0;
    while i < n
        invariant
            n == row@.len(),
            i <= n,
            d@.len() == i,
            forall|k: int| 0 <= k < i ==> #[trigger] d@[k]@ == cell_text(row@[k]@),
        decreases n - i,
    {
        d.push(row[i].display());
        i += 1;
    }
    assert(views(d@) =~= row_view(row@).map_values(|c: CellView| cell_text(c)));
    d
}

/// The rows of a table as text: aligned columns when `aligned`, tab-separated values
/// otherwise.
pub fn table_text<T: Tabular>(rows: &[T], verbose: bool, aligned: bool) -> (s: String)
    ensures
        s@ == ({
            let cells = rows@.map_values(|r: T| r.spec_row(verbose));
            if aligned {
                padded_spec(
                    T::spec_headers(verbose),
                    displayed_spec(cells),
                    numeric_columns(cells, T::spec_headers(verbose).len()),
                )
            } else {
                tsv_spec(T::spec_headers(verbose), displayed_spec(cells))
            }
        }),
{
    let ghost spec_cells = rows@.map_values(|r: T| r.spec_row(verbose));
    let headers = T::headers(verbose);
    let mut cells: Vec<Vec<Cell>> = Vec::new();
    let mut displayed: Vec<Vec<String>> = Vec::new();
    let n = rows.len();
    let mut i: usize = 0;
    while i < n
        invariant
            n == rows@.len(),
            i <= n,
            str_views(headers@) == T::spec_headers(verbose),
            spec_cells == rows@.map_values(|r: T| r.spec_row(verbose)),
            cells@.len() == i,
            displayed@.len() == i,
            forall|k: int| 0 <= k < i ==> #[trigger] row_view(cells@[k]@) == spec_cells[k],
            forall|k: int| 0 <= k < i ==> #[trigger] views(displayed@[k]@) == spec_cells[k].map_values(
                |c: CellView| cell_text(c),
            ),
            forall|k: int| 0 <= k < i ==> #[trigger] spec_cells[k].len() == headers@.len(),
            forall|k: int| 0 <= k < i ==> #[trigger] cells@[k]@.len() == headers@.len(),
        decreases n - i,
    {
        let row = rows[i].row(verbose);
        proof {
            rows@[i as int].lemma_row_width(verbose);
        }
        let d = display_row(&row);
        assert(row_view(row@).len() == row@.len());
        cells.push(row);
        displayed.push(d);
        i += 1;
    }
    assert(cells_views(cells@) =~= spec_cells);
    assert(rows_views(displayed@) =~= displayed_spec(spec_cells));
    let mut out = String::new();
    if aligned {
        write_padded(&mut out, headers.as_slice(), cells.as_slice(), displayed.as_slice());
    } else {
        write_tsv(&mut out, headers.as_slice(), displayed.as_slice());
    }
    out
}

} // verus!
