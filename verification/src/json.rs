//! Compact JSON text for strings, string lists and flat objects. Strings are
//! escaped by `serde_json`; the surrounding layout is written here.
use vstd::prelude::*;

use crate::text::{join, push_str, views};

verus! {

/// The lowercase hexadecimal digit of `d < 16`.
pub open spec fn hex_digit(d: nat) -> char {
    seq!['0', '1', '2', '3', '4', '5', '6', '7', '8', '9', 'a', 'b', 'c', 'd', 'e', 'f'][d as int]
}

/// How `serde_json` writes one character inside a string literal: the quote, the
/// backslash and the control characters below U+0020 are escaped (the usual short
/// escapes where JSON has one, `\u00XX` otherwise); every other character stands as
/// it is.
pub open spec fn json_escaped_char(c: char) -> Seq<char> {
    let u = c as u32;
    if c == '"' {
        seq!['\\', '"']
    } else if c == '\\' {
        seq!['\\', '\\']
    } else if u == 0x08 {
        seq!['\\', 'b']
    } else if u == 0x09 {
        seq!['\\', 't']
    } else if u == 0x0a {
        seq!['\\', 'n']
    } else if u == 0x0c {
        seq!['\\', 'f']
    } else if u == 0x0d {
        seq!['\\', 'r']
    } else if u < 0x20 {
        seq!['\\', 'u', '0', '0', hex_digit((u / 16) as nat), hex_digit((u % 16) as nat)]
    } else {
        seq![c]
    }
}

/// The JSON string literal that `serde_json` writes for a text: the escaped
/// characters between double quotes.
pub open spec fn json_string_text(s: Seq<char>) -> Seq<char> {
    seq!['"'] + s.map_values(|c: char| json_escaped_char(c)).flatten() + seq!['"']
}

/// Encodes a text as a JSON string literal (`serde_json::to_string` on a `str`, which
/// cannot fail for a string); the result is the escaping stated by `json_string_text`.
#[verifier::external_body]
pub fn json_quote(s: &str) -> (r: String)
    ensures
        r@ == json_string_text(s@),
{
    serde_json::to_string(s).unwrap_or_default()
}

/// The JSON array of the given texts, compact.
pub open spec fn json_string_array(items: Seq<Seq<char>>) -> Seq<char> {
    "["@ + join(items.map_values(|x: Seq<char>| json_string_text(x)), ","@) + "]"@
}

/// One member of a JSON object: the quoted key, a colon, and the value's JSON text.
pub open spec fn json_member(m: (Seq<char>, Seq<char>)) -> Seq<char> {
    json_string_text(m.0) + ":"@ + m.1
}

/// The JSON object with the given members (key, value's JSON text), compact.
pub open spec fn json_object_text(members: Seq<(Seq<char>, Seq<char>)>) -> Seq<char> {
    "{"@ + join(members.map_values(|m: (Seq<char>, Seq<char>)| json_member(m)), ","@) + "}"@
}

/// The views of (key, value) string pairs.
pub open spec fn pair_views(v: Seq<(String, String)>) -> Seq<(Seq<char>, Seq<char>)> {
    v.map_values(|p: (String, String)| (p.0@, p.1@))
}

/// Joins already-built pieces with commas.
fn join_commas(pieces: &Vec<String>) -> (out: String)
    ensures
        out@ == join(views(pieces@), ","@),
{
    let ghost q = views(pieces@);
    let mut out = String::new();
    let mut i: usize = 0;
    while i < pieces.len()
        invariant
            i <= pieces@.len(),
            q == views(pieces@),
            out@ == join(q.take(i as int), ","@),
        decreases pieces@.len() - i,
    {
        proof {
            assert(q[i as int] == pieces@[i as int]@);
            assert(q.take(i + 1).drop_last() =~= q.take(i as int));
        }
        if i > 0 {
            push_str(&mut out, ",");
        }
        push_str(&mut out, pieces[i].as_str());
        proof {
            if i == 0 {
                assert(out@ =~= q.take(1)[0]);
            }
        }
        i += 1;
    }
    assert(q.take(i as int) =~= q);
    out
}

/// The compact JSON array of the given strings (`serde_json::to_string` on a
/// `Vec<String>`).
pub fn json_string_list(items: &[String]) -> (out: String)
    ensures
        out@ == json_string_array(views(items@)),
{
    let ghost q = views(items@).map_values(|x: Seq<char>| json_string_text(x));
    let mut pieces: Vec<String> = Vec::new();
    let mut i: usize = 0;
    while i < items.len()
        invariant
            i <= items@.len(),
            q == views(items@).map_values(|x: Seq<char>| json_string_text(x)),
            views(pieces@) == q.take(i as int),
        decreases items@.len() - i,
    {
        let e = json_quote(items[i].as_str());
        let ghost before = pieces@;
        assert(q[i as int] == e@);
        pieces.push(e);
        assert(views(pieces@) =~= views(before).push(q[i as int]));
        i += 1;
        assert(views(pieces@) =~= q.take(i as int));
    }
    assert(q.take(i as int) =~= q);
    let body = join_commas(&pieces);
    let mut out = String::new();
    push_str(&mut out, "[");
    push_str(&mut out, body.as_str());
    push_str(&mut out, "]");
    assert(out@ =~= json_string_array(views(items@)));
    out
}

/// The JSON text of an optional string: the quoted string, or `null`.
pub open spec fn json_opt_text(v: Option<Seq<char>>) -> Seq<char> {
    match v {
        Some(t) => json_string_text(t),
        None => "null"@,
    }
}

/// The compact JSON array of optional strings, absent ones as `null`.
pub open spec fn json_opt_array(items: Seq<Option<Seq<char>>>) -> Seq<char> {
    "["@ + join(items.map_values(|v: Option<Seq<char>>| json_opt_text(v)), ","@) + "]"@
}

/// The views of optional strings.
pub open spec fn opt_string_views(v: Seq<Option<String>>) -> Seq<Option<Seq<char>>> {
    v.map_values(|o: Option<String>| match o {
        Some(s) => Some(s@),
        None => None,
    })
}

/// The compact JSON array of optional strings, absent ones as `null`.
pub fn json_opt_list(items: &Vec<Option<String>>) -> (out: String)
    ensures
        out@ == json_opt_array(opt_string_views(items@)),
{
    let ghost q = opt_string_views(items@).map_values(|v: Option<Seq<char>>| json_opt_text(v));
    let mut pieces: Vec<String> = Vec::new();
    let mut i: usize = 0;
    while i < items.len()
        invariant
            i <= items@.len(),
            q == opt_string_views(items@).map_values(|v: Option<Seq<char>>| json_opt_text(v)),
            views(pieces@) == q.take(i as int),
        decreases items@.len() - i,
    {
        let e = match &items[i] {
            Some(t) => json_quote(t.as_str()),
            None => {
                proof {
                    reveal_strlit("null");
                }
                crate::text::owned("null")
            },
        };
        let ghost before = pieces@;
        assert(q[i as int] == e@);
        pieces.push(e);
        assert(views(pieces@) =~= views(before).push(q[i as int]));
        i += 1;
        assert(views(pieces@) =~= q.take(i as int));
    }
    assert(q.take(i as int) =~= q);
    let body = join_commas(&pieces);
    let mut out = String::new();
    push_str(&mut out, "[");
    push_str(&mut out, body.as_str());
    push_str(&mut out, "]");
    assert(out@ =~= json_opt_array(opt_string_views(items@)));
    out
}

/// The compact JSON object whose members are the given (key, value's JSON text)
/// pairs, in the given order.
pub fn json_object(members: &[(String, String)]) -> (out: String)
    ensures
        out@ == json_object_text(pair_views(members@)),
{
    let ghost q = pair_views(members@).map_values(|m: (Seq<char>, Seq<char>)| json_member(m));
    let mut pieces: Vec<String> = Vec::new();
    let mut i: usize = 0;
    while i < members.len()
        invariant
            i <= members@.len(),
            q == pair_views(members@).map_values(|m: (Seq<char>, Seq<char>)| json_member(m)),
            views(pieces@) == q.take(i as int),
        decreases members@.len() - i,
    {
        let mut piece = json_quote(members[i].0.as_str());
        push_str(&mut piece, ":");
        push_str(&mut piece, members[i].1.as_str());
        let ghost before = pieces@;
        assert(q[i as int] == piece@);
        pieces.push(piece);
        assert(views(pieces@) =~= views(before).push(q[i as int]));
        i += 1;
        assert(views(pieces@) =~= q.take(i as int));
    }
    assert(q.take(i as int) =~= q);
    let body = join_commas(&pieces);
    let mut out = String::new();
    push_str(&mut out, "{");
    push_str(&mut out, body.as_str());
    push_str(&mut out, "}");
    assert(out@ =~= json_object_text(pair_views(members@)));
    out
}

} // verus!
