//! The earlier table layout for metadata rows given as JSON objects: columns padded
//! to their widest value (at most 60 bytes), a dashed rule under the header, and
//! values longer than 60 bytes cut to their first 57 bytes followed by `...`.
use vstd::prelude::*;

use super::query::{
    field_value, format_value, json_lines, lookup, result_keys, row_value, value_text, QueryRow, QueryValue,
};
use crate::render::{byte_len, lines_text};
use crate::text::{
    chars_of, join, join_strings, pad_right_spec, push_char, push_padded_right, push_str, string_of, take_chars,
    views,
};
use vstd::utf8::{encode_scalar, encode_utf8};

verus! {

/// The number of UTF-8 bytes of a text.
pub open spec fn utf8_len(s: Seq<char>) -> int {
    encode_utf8(s).len() as int
}

/// Whether the first `n` bytes of `s` end at a character boundary.
pub open spec fn ends_char_at(s: Seq<char>, n: int) -> bool {
    exists|k: int| 0 <= k <= s.len() && utf8_len(#[trigger] s.take(k)) == n
}

/// The characters that make up the first `n` bytes of `s` (meaningful when they end
/// at a character boundary).
pub open spec fn byte_prefix(s: Seq<char>, n: int) -> Seq<char> {
    s.take(choose|k: int| 0 <= k <= s.len() && utf8_len(#[trigger] s.take(k)) == n)
}

/// A value as a cell shows it: cut to its first 57 bytes and `...` when longer than
/// 60 bytes.
pub open spec fn legacy_cell_text(v: Seq<char>) -> Seq<char> {
    if byte_len(v) > 60 {
        byte_prefix(v, 57) + "..."@
    } else {
        v
    }
}

/// The width a value asks of its column: its length in bytes, at most 60.
pub open spec fn capped_len(v: Seq<char>) -> nat {
    if byte_len(v) > 60 {
        60
    } else {
        byte_len(v)
    }
}

/// The larger of two widths.
pub open spec fn wider(a: nat, b: nat) -> nat {
    if a >= b {
        a
    } else {
        b
    }
}

/// The width of the column of `key`: its name and the values of the object rows.
pub open spec fn legacy_col_width(key: Seq<char>, rows: Seq<QueryRow>) -> nat
    decreases rows.len(),
{
    if rows.len() == 0 {
        byte_len(key)
    } else {
        let w = legacy_col_width(key, rows.drop_last());
        match rows.last().fields {
            Some(f) => wider(w, capped_len(value_text(field_value(f@, key)))),
            None => w,
        }
    }
}

/// `n` dashes.
pub open spec fn dashes(n: nat) -> Seq<char> {
    Seq::new(n, |i: int| '-')
}

/// The line of one object row.
pub open spec fn legacy_row_line(r: QueryRow, keys: Seq<Seq<char>>, widths: Seq<nat>) -> Seq<char> {
    join(
        Seq::new(keys.len(), |i: int| pad_right_spec(legacy_cell_text(value_text(row_value(r, keys[i]))), widths[i])),
        "  "@,
    )
}

/// The lines of the object rows; other rows are left out.
pub open spec fn legacy_rows_text(rows: Seq<QueryRow>, keys: Seq<Seq<char>>, widths: Seq<nat>) -> Seq<char>
    decreases rows.len(),
{
    if rows.len() == 0 {
        Seq::empty()
    } else {
        legacy_rows_text(rows.drop_last(), keys, widths) + match rows.last().fields {
            Some(_) => legacy_row_line(rows.last(), keys, widths) + "\n"@,
            None => Seq::empty(),
        }
    }
}

/// The widths of the columns.
pub open spec fn legacy_widths(rows: Seq<QueryRow>, keys: Seq<Seq<char>>) -> Seq<nat> {
    Seq::new(keys.len(), |i: int| legacy_col_width(keys[i], rows))
}

/// The text of the rows: nothing for none; each row's JSON on a line when the first
/// row is no object; else the header, the dashed rule and one line per object row,
/// with the first row's fields as columns.
pub open spec fn legacy_table_spec(rows: Seq<QueryRow>) -> Seq<char> {
    if rows.len() == 0 {
        Seq::empty()
    } else if rows[0].fields is None {
        lines_text(rows.map_values(|r: QueryRow| r.text@))
    } else {
        let keys = result_keys(rows);
        let w = legacy_widths(rows, keys);
        join(Seq::new(keys.len(), |i: int| pad_right_spec(keys[i], w[i])), "  "@) + "\n"@ + join(
            Seq::new(keys.len(), |i: int| dashes(w[i])),
            "  "@,
        ) + "\n"@ + legacy_rows_text(rows, keys, w)
    }
}

/// Every object row's value that is longer than 60 bytes has a character boundary
/// at byte 57, where it is cut.
pub open spec fn cuts_at_boundaries(rows: Seq<QueryRow>) -> bool {
    rows.len() > 0 && rows[0].fields is Some ==> forall|r: int, c: int|
        0 <= r < rows.len() && rows[r].fields is Some && 0 <= c < result_keys(rows).len() && byte_len(
            value_text(row_value(rows[r], result_keys(rows)[c])),
        ) > 60 ==> ends_char_at(value_text(row_value(#[trigger] rows[r], #[trigger] result_keys(rows)[c])), 57)
}

// ---------------------------------------------------------------------------
// Byte lengths
// ---------------------------------------------------------------------------

/// Encoding is compatible with concatenation.
proof fn lemma_encode_concat(a: Seq<char>, b: Seq<char>)
    ensures
        encode_utf8(a + b) == encode_utf8(a) + encode_utf8(b),
    decreases a.len(),
{
    if a.len() == 0 {
        assert(a + b =~= b);
        assert(encode_utf8(a) =~= Seq::<u8>::empty());
        assert(Seq::<u8>::empty() + encode_utf8(b) =~= encode_utf8(b));
    } else {
        lemma_encode_concat(a.drop_first(), b);
        assert((a + b).drop_first() =~= a.drop_first() + b);
        assert((a + b)[0] == a[0]);
        assert(encode_utf8(a + b) =~= encode_scalar(a[0] as u32) + encode_utf8(a.drop_first() + b));
    }
}

/// One more character adds its encoding, of one to four bytes.
pub(crate) proof fn lemma_take_step(s: Seq<char>, k: int)
    requires
        0 <= k < s.len(),
    ensures
        utf8_len(s.take(k + 1)) == utf8_len(s.take(k)) + encode_scalar(s[k] as u32).len(),
        1 <= encode_scalar(s[k] as u32).len() <= 4,
{
    assert(s.take(k + 1) =~= s.take(k) + seq![s[k]]);
    lemma_encode_concat(s.take(k), seq![s[k]]);
    assert(seq![s[k]].drop_first() =~= Seq::<char>::empty());
    assert(encode_utf8(seq![s[k]]) =~= encode_scalar(s[k] as u32) + encode_utf8(Seq::<char>::empty()));
}

/// Longer prefixes have more bytes.
pub(crate) proof fn lemma_take_increasing(s: Seq<char>, i: int, j: int)
    requires
        0 <= i < j <= s.len(),
    ensures
        utf8_len(s.take(i)) < utf8_len(s.take(j)),
    decreases j - i,
{
    lemma_take_step(s, j - 1);
    if i < j - 1 {
        lemma_take_increasing(s, i, j - 1);
    }
}

/// The number of UTF-8 bytes of one character.
pub(crate) fn char_bytes(c: char) -> (n: usize)
    ensures
        n == encode_scalar(c as u32).len(),
        1 <= n <= 4,
{
    let mut s = String::new();
    push_char(&mut s, c);
    proof {
        assert(s@ =~= seq![c]);
        assert(seq![c].drop_first() =~= Seq::<char>::empty());
        assert(encode_utf8(seq![c]) =~= encode_scalar(c as u32) + encode_utf8(Seq::<char>::empty()));
        lemma_take_step(seq![c], 0);
    }
    s.as_str().len()
}

/// The characters of the first 57 bytes of `v`.
fn cut_prefix(v: &str) -> (p: String)
    requires
        byte_len(v@) > 60,
        ends_char_at(v@, 57),
    ensures
        p@ == byte_prefix(v@, 57),
{
    let cs = chars_of(v);
    let mut acc: usize = 0;
    let mut k: usize = 0;
    proof {
        assert(v@.take(0) =~= Seq::<char>::empty());
        assert(v@.take(v@.len() as int) =~= v@);
        if utf8_len(v@) <= 60 {
            assert(byte_len(v@) == utf8_len(v@));
        }
    }
    while acc < 57
        invariant
            cs@ == v@,
            k <= cs@.len(),
            acc == utf8_len(v@.take(k as int)),
            k > 0 ==> utf8_len(v@.take(k - 1)) < 57,
            utf8_len(v@) > 60,
        decreases cs@.len() - k,
    {
        if k == cs.len() {
            assert(v@.take(k as int) =~= v@);
            assert(false);
        }
        let b = char_bytes(cs[k]);
        proof {
            lemma_take_step(v@, k as int);
        }
        acc = acc + b;
        k = k + 1;
    }
    proof {
        let k0 = choose|j: int| 0 <= j <= v@.len() && utf8_len(#[trigger] v@.take(j)) == 57;
        if k0 < k {
            if k0 < k - 1 {
                lemma_take_increasing(v@, k0, k - 1);
            }
        } else if k0 > k {
            lemma_take_increasing(v@, k as int, k0);
        }
        assert(k0 == k);
    }
    let t = take_chars(&cs, k);
    string_of(&t)
}

/// A value as a cell shows it.
fn cell_text(v: &str) -> (s: String)
    requires
        byte_len(v@) > 60 ==> ends_char_at(v@, 57),
    ensures
        s@ == legacy_cell_text(v@),
{
    if v.len() > 60 {
        let mut p = cut_prefix(v);
        push_str(&mut p, "...");
        p
    } else {
        crate::text::owned(v)
    }
}

/// The shown text of the value of `key` in row `r`.
fn shown_value(r: &QueryRow, key: &str) -> (s: String)
    ensures
        s@ == value_text(row_value(*r, key@)),
{
    let v = match &r.fields {
        Some(f) => lookup(f, key),
        None => None,
    };
    format_value(v)
}

/// The width of the column of `key`.
fn column_width(rows: &[QueryRow], key: &str) -> (w: usize)
    ensures
        w == legacy_col_width(key@, rows@),
{
    let mut w: usize = key.len();
    let mut r: usize = 0;
    assert(rows@.take(0) =~= Seq::<QueryRow>::empty());
    while r < rows.len()
        invariant
            r <= rows@.len(),
            w == legacy_col_width(key@, rows@.take(r as int)),
        decreases rows@.len() - r,
    {
        proof {
            let t = rows@.take(r + 1);
            assert(t.drop_last() =~= rows@.take(r as int));
            assert(t.last() == rows@[r as int]);
        }
        if rows[r].fields.is_some() {
            let v = shown_value(&rows[r], key);
            let n = v.as_str().len();
            let c = if n > 60 {
                60
            } else {
                n
            };
            if c > w {
                w = c;
            }
        }
        r += 1;
    }
    assert(rows@.take(r as int) =~= rows@);
    w
}

/// `s` padded with spaces to `width` characters.
fn padded(s: &str, width: usize) -> (p: String)
    ensures
        p@ == pad_right_spec(s@, width as nat),
{
    let mut p = String::new();
    push_padded_right(&mut p, s, width);
    assert(p@ =~= pad_right_spec(s@, width as nat));
    p
}

/// `n` dashes.
fn dash_run(n: usize) -> (s: String)
    ensures
        s@ == dashes(n as nat),
{
    let mut s = String::new();
    let mut i: usize = 0;
    while i < n
        invariant
            i <= n,
            s@ == dashes(i as nat),
        decreases n - i,
    {
        push_char(&mut s, '-');
        i += 1;
        assert(s@ =~= dashes(i as nat));
    }
    s
}

/// The rows laid out as the earlier inspection table: a header of the first row's
/// fields, a dashed rule, and one line per object row, each column padded to its
/// widest value (at most 60 bytes) and longer values cut at byte 57 with `...`.
pub fn legacy_table_text(rows: &Vec<QueryRow>) -> (s: String)
    requires
        cuts_at_boundaries(rows@),
    ensures
        s@ == legacy_table_spec(rows@),
{
    if rows.len() == 0 {
        return String::new();
    }
    let first = match &rows[0].fields {
        Some(f) => f,
        None => {
            return json_lines(rows.as_slice());
        },
    };
    let ghost keys = result_keys(rows@);
    let ghost w = legacy_widths(rows@, keys);
    let mut widths: Vec<usize> = Vec::new();
    let mut heads: Vec<String> = Vec::new();
    let mut rules: Vec<String> = Vec::new();
    let mut c: usize = 0;
    while c < first.len()
        invariant
            c <= first@.len(),
            rows@.len() > 0,
            rows@[0].fields == Some(*first),
            keys == result_keys(rows@),
            keys.len() == first@.len(),
            w == legacy_widths(rows@, keys),
            widths@.len() == c,
            forall|i: int| 0 <= i < c ==> widths@[i] as nat == #[trigger] w[i],
            views(heads@) == Seq::new(keys.len(), |i: int| pad_right_spec(keys[i], w[i])).take(c as int),
            views(rules@) == Seq::new(keys.len(), |i: int| dashes(w[i])).take(c as int),
        decreases first@.len() - c,
    {
        let key = first[c].0.as_str();
        assert(keys[c as int] == key@);
        let wc = column_width(rows.as_slice(), key);
        let ghost h0 = heads@;
        let ghost r0 = rules@;
        assert(w[c as int] == wc as nat);
        widths.push(wc);
        let hp = padded(key, wc);
        let rp = dash_run(wc);
        heads.push(hp);
        rules.push(rp);
        proof {
            assert(views(heads@) =~= views(h0).push(pad_right_spec(keys[c as int], w[c as int])));
            assert(views(rules@) =~= views(r0).push(dashes(w[c as int])));
        }
        c += 1;
        proof {
            assert(views(heads@) =~= Seq::new(keys.len(), |i: int| pad_right_spec(keys[i], w[i])).take(c as int));
            assert(views(rules@) =~= Seq::new(keys.len(), |i: int| dashes(w[i])).take(c as int));
        }
    }
    proof {
        assert(Seq::new(keys.len(), |i: int| pad_right_spec(keys[i], w[i])).take(c as int) =~= Seq::new(
            keys.len(),
            |i: int| pad_right_spec(keys[i], w[i]),
        ));
        assert(Seq::new(keys.len(), |i: int| dashes(w[i])).take(c as int) =~= Seq::new(
            keys.len(),
            |i: int| dashes(w[i]),
        ));
    }
    let mut out = join_strings(heads.as_slice(), "  ");
    push_str(&mut out, "\n");
    let rule = join_strings(rules.as_slice(), "  ");
    push_str(&mut out, rule.as_str());
    push_str(&mut out, "\n");
    let ghost head = out@;
    let mut r: usize = 0;
    assert(rows@.take(0) =~= Seq::<QueryRow>::empty());
    while r < rows.len()
        invariant
            r <= rows@.len(),
            rows@.len() > 0,
            rows@[0].fields == Some(*first),
            keys == result_keys(rows@),
            w == legacy_widths(rows@, keys),
            widths@.len() == first@.len(),
            keys.len() == first@.len(),
            forall|i: int| 0 <= i < widths@.len() ==> widths@[i] as nat == #[trigger] w[i],
            cuts_at_boundaries(rows@),
            out@ == head + legacy_rows_text(rows@.take(r as int), keys, w),
        decreases rows@.len() - r,
    {
        proof {
            let t = rows@.take(r + 1);
            assert(t.drop_last() =~= rows@.take(r as int));
            assert(t.last() == rows@[r as int]);
        }
        if rows[r].fields.is_some() {
            let ghost want = Seq::new(keys.len(), |i: int| pad_right_spec(
                legacy_cell_text(value_text(row_value(rows@[r as int], keys[i]))),
                w[i],
            ));
            let mut cells: Vec<String> = Vec::new();
            let mut c: usize = 0;
            while c < first.len()
                invariant
                    c <= first@.len(),
                    r < rows@.len(),
                    rows@[r as int].fields is Some,
                    rows@.len() > 0,
                    rows@[0].fields == Some(*first),
                    keys == result_keys(rows@),
                    keys.len() == first@.len(),
                    widths@.len() == first@.len(),
                    forall|i: int| 0 <= i < widths@.len() ==> widths@[i] as nat == #[trigger] w[i],
                    cuts_at_boundaries(rows@),
                    want == Seq::new(keys.len(), |i: int| pad_right_spec(
                        legacy_cell_text(value_text(row_value(rows@[r as int], keys[i]))),
                        w[i],
                    )),
                    views(cells@) == want.take(c as int),
                decreases first@.len() - c,
            {
                let key = first[c].0.as_str();
                assert(keys[c as int] == key@);
                let v = shown_value(&rows[r], key);
                proof {
                    assert(value_text(row_value(rows@[r as int], result_keys(rows@)[c as int])) == v@);
                }
                let t = cell_text(v.as_str());
                let cell = padded(t.as_str(), widths[c]);
                let ghost before = cells@;
                assert(want[c as int] == cell@);
                cells.push(cell);
                assert(views(cells@) =~= views(before).push(want[c as int]));
                c += 1;
                assert(views(cells@) =~= want.take(c as int));
            }
            assert(want.take(c as int) =~= want);
            let line = join_strings(cells.as_slice(), "  ");
            push_str(&mut out, line.as_str());
            push_str(&mut out, "\n");
        }
        r += 1;
        proof {
            assert(out@ =~= head + legacy_rows_text(rows@.take(r as int), keys, w));
        }
    }
    assert(rows@.take(r as int) =~= rows@);
    out
}

} // verus!
