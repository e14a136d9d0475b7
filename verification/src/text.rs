//! Character-level string operations with their specifications.
use vstd::prelude::*;
use vstd::string::*;

verus! {

// ---------------------------------------------------------------------------
// Specifications
// ---------------------------------------------------------------------------

/// `d` occurs in `s` starting at position `i`.
pub open spec fn occurs_at(s: Seq<char>, d: Seq<char>, i: int) -> bool {
    0 <= i && i + d.len() <= s.len() && s.subrange(i, i + d.len()) == d
}

/// The first position at or after `from` where `d` occurs in `s`.
pub open spec fn first_occurrence_from(s: Seq<char>, d: Seq<char>, from: int) -> Option<int>
    decreases s.len() + 1 - from,
{
    if from < 0 || from + d.len() > s.len() {
        None
    } else if occurs_at(s, d, from) {
        Some(from)
    } else {
        first_occurrence_from(s, d, from + 1)
    }
}

/// The first position where `d` occurs in `s`.
pub open spec fn first_occurrence(s: Seq<char>, d: Seq<char>) -> Option<int> {
    first_occurrence_from(s, d, 0)
}

/// Joins `parts` with `sep` between consecutive elements.
pub open spec fn join(parts: Seq<Seq<char>>, sep: Seq<char>) -> Seq<char>
    decreases parts.len(),
{
    if parts.len() == 0 {
        Seq::empty()
    } else if parts.len() == 1 {
        parts[0]
    } else {
        join(parts.drop_last(), sep) + sep + parts.last()
    }
}

/// Replaces every non-overlapping occurrence of `p` in `s`, scanning left to right.
pub open spec fn replace_all(s: Seq<char>, p: Seq<char>, r: Seq<char>) -> Seq<char>
    decreases s.len(),
{
    if p.len() == 0 || s.len() < p.len() {
        s
    } else if s.take(p.len() as int) == p {
        r + replace_all(s.skip(p.len() as int), p, r)
    } else {
        seq![s[0]] + replace_all(s.skip(1), p, r)
    }
}

/// ASCII lowercase of a single character.
pub open spec fn ascii_lower(c: char) -> char {
    if 'A' <= c && c <= 'Z' {
        ((c as u32) + 32) as char
    } else {
        c
    }
}

/// ASCII lowercase of a string: only `A`..`Z` change.
pub open spec fn ascii_lowercase(s: Seq<char>) -> Seq<char> {
    s.map_values(|c: char| ascii_lower(c))
}

/// Unicode `White_Space`, the property that `char::is_whitespace` tests.
pub open spec fn is_whitespace(c: char) -> bool {
    let u = c as u32;
    ||| 0x09 <= u && u <= 0x0d
    ||| u == 0x20
    ||| u == 0x85
    ||| u == 0xa0
    ||| u == 0x1680
    ||| 0x2000 <= u && u <= 0x200a
    ||| u == 0x2028
    ||| u == 0x2029
    ||| u == 0x202f
    ||| u == 0x205f
    ||| u == 0x3000
}

/// `s` with trailing whitespace removed.
pub open spec fn trim_end(s: Seq<char>) -> Seq<char>
    decreases s.len(),
{
    if s.len() > 0 && is_whitespace(s.last()) {
        trim_end(s.drop_last())
    } else {
        s
    }
}

/// `s` with leading whitespace removed.
pub open spec fn trim_start(s: Seq<char>) -> Seq<char>
    decreases s.len(),
{
    if s.len() > 0 && is_whitespace(s[0]) {
        trim_start(s.drop_first())
    } else {
        s
    }
}

/// `s` with leading and trailing whitespace removed.
pub open spec fn trim(s: Seq<char>) -> Seq<char> {
    trim_start(trim_end(s))
}

/// The decimal digit for `d < 10`.
pub open spec fn digit_char(d: nat) -> char {
    (('0' as u32) + d) as char
}

/// Decimal rendering of a natural number, without leading zeros.
pub open spec fn decimal(n: nat) -> Seq<char>
    decreases n,
{
    if n < 10 {
        seq![digit_char(n)]
    } else {
        decimal(n / 10) + seq![digit_char(n % 10)]
    }
}

/// Decimal rendering of an integer, with a leading `-` when negative.
pub open spec fn int_text(n: int) -> Seq<char> {
    if n < 0 {
        seq!['-'] + decimal((-n) as nat)
    } else {
        decimal(n as nat)
    }
}

/// The text `true` or `false`.
pub open spec fn bool_text(b: bool) -> Seq<char> {
    if b {
        seq!['t', 'r', 'u', 'e']
    } else {
        seq!['f', 'a', 'l', 's', 'e']
    }
}

/// Splits `s` on `d` at most `n` times, leftmost occurrences first; the last part is
/// the unsplit remainder.
pub open spec fn split_max_spec(s: Seq<char>, d: Seq<char>, n: nat) -> Seq<Seq<char>>
    decreases n,
{
    if n == 0 {
        seq![s]
    } else {
        match first_occurrence(s, d) {
            Some(i) => seq![s.take(i)] + split_max_spec(s.skip(i + d.len()), d, (n - 1) as nat),
            None => seq![s],
        }
    }
}

/// The views of a sequence of strings.
pub open spec fn views(v: Seq<String>) -> Seq<Seq<char>> {
    v.map_values(|x: String| x@)
}

/// `n` copies of the space character.
pub open spec fn spaces(n: nat) -> Seq<char> {
    Seq::new(n, |i: int| ' ')
}

/// `s` right-aligned in a field of `width` characters (`{:>width$}`).
pub open spec fn pad_left_spec(s: Seq<char>, width: nat) -> Seq<char> {
    if s.len() < width {
        spaces((width - s.len()) as nat) + s
    } else {
        s
    }
}

/// `s` left-aligned in a field of `width` characters (`{:<width$}`).
pub open spec fn pad_right_spec(s: Seq<char>, width: nat) -> Seq<char> {
    if s.len() < width {
        s + spaces((width - s.len()) as nat)
    } else {
        s
    }
}

/// The order of `String`s: lexicographic by character code, a proper prefix first.
/// (On UTF-8 text this is the byte order that `Ord for str` uses.)
pub open spec fn text_lt(a: Seq<char>, b: Seq<char>) -> bool
    decreases a.len(),
{
    if a.len() == 0 {
        b.len() > 0
    } else if b.len() == 0 {
        false
    } else if a[0] != b[0] {
        (a[0] as u32) < (b[0] as u32)
    } else {
        text_lt(a.drop_first(), b.drop_first())
    }
}

// ---------------------------------------------------------------------------
// Lemmas
// ---------------------------------------------------------------------------

/// A found occurrence really occurs, and none occurs earlier.
pub proof fn lemma_first_occurrence_from(s: Seq<char>, d: Seq<char>, from: int)
    requires
        0 <= from,
    ensures
        match first_occurrence_from(s, d, from) {
            Some(i) => from <= i && occurs_at(s, d, i) && forall|j: int|
                from <= j < i ==> !occurs_at(s, d, j),
            None => forall|j: int| from <= j ==> !occurs_at(s, d, j),
        },
    decreases s.len() + 1 - from,
{
    if from + d.len() > s.len() {
    } else if occurs_at(s, d, from) {
    } else {
        lemma_first_occurrence_from(s, d, from + 1);
    }
}

/// Joining `x` in front of a non-empty list puts the separator between them.
pub proof fn lemma_join_prepend(x: Seq<char>, l: Seq<Seq<char>>, sep: Seq<char>)
    requires
        l.len() > 0,
    ensures
        join(seq![x] + l, sep) == x + sep + join(l, sep),
    decreases l.len(),
{
    let xl = seq![x] + l;
    if l.len() == 1 {
        assert(xl.drop_last() =~= seq![x]);
        assert(xl.last() == l[0]);
        assert(join(seq![x], sep) == x);
        assert(join(xl, sep) == join(xl.drop_last(), sep) + sep + xl.last());
    } else {
        lemma_join_prepend(x, l.drop_last(), sep);
        assert(xl.drop_last() =~= seq![x] + l.drop_last());
        assert(xl.last() == l.last());
        assert(join(xl, sep) == join(xl.drop_last(), sep) + sep + xl.last());
        assert(join(l, sep) == join(l.drop_last(), sep) + sep + l.last());
        assert(x + sep + join(l.drop_last(), sep) + sep + l.last() =~= x + sep + (join(
            l.drop_last(),
            sep,
        ) + sep + l.last()));
    }
}

/// Splitting never loses characters: joining the parts with the delimiter gives `s` back.
pub proof fn lemma_split_max_join(s: Seq<char>, d: Seq<char>, n: nat)
    ensures
        join(split_max_spec(s, d, n), d) == s,
        split_max_spec(s, d, n).len() >= 1,
        split_max_spec(s, d, n).len() <= n + 1,
    decreases n,
{
    if n == 0 {
    } else {
        lemma_first_occurrence_from(s, d, 0);
        match first_occurrence(s, d) {
            Some(i) => {
                let rest = s.skip(i + d.len());
                lemma_split_max_join(rest, d, (n - 1) as nat);
                lemma_join_prepend(s.take(i), split_max_spec(rest, d, (n - 1) as nat), d);
                assert(s.subrange(i, i + d.len()) == d);
                assert(s =~= s.take(i) + s.subrange(i, i + d.len()) + rest);
            },
            None => {},
        }
    }
}

/// `d` occurs somewhere in `s` (`str::contains`).
pub open spec fn contains_text(s: Seq<char>, d: Seq<char>) -> bool {
    exists|j: int| occurs_at(s, d, j)
}

/// The text before the first occurrence of `d` holds no occurrence of `d`.
proof fn lemma_prefix_before_first(s: Seq<char>, d: Seq<char>, i: int)
    requires
        d.len() > 0,
        0 <= i <= s.len(),
        forall|j: int| 0 <= j < i ==> !occurs_at(s, d, j),
    ensures
        !contains_text(s.take(i), d),
{
    if contains_text(s.take(i), d) {
        let j = choose|j: int| occurs_at(s.take(i), d, j);
        assert(s.take(i).subrange(j, j + d.len()) =~= s.subrange(j, j + d.len()));
        assert(j < i);
        assert(occurs_at(s, d, j));
    }
}

/// No part that `split_max` cut off holds the delimiter; the last part holds none
/// either unless the splits ran out before the text did.
pub proof fn lemma_split_max_parts(s: Seq<char>, d: Seq<char>, n: nat)
    requires
        d.len() > 0,
    ensures
        forall|i: int|
            0 <= i < split_max_spec(s, d, n).len() - 1 ==> !contains_text(#[trigger] split_max_spec(s, d, n)[i], d),
        split_max_spec(s, d, n).len() <= n ==> !contains_text(split_max_spec(s, d, n).last(), d),
    decreases n,
{
    if n > 0 {
        lemma_first_occurrence_from(s, d, 0);
        match first_occurrence(s, d) {
            Some(i) => {
                let rest = s.skip(i + d.len());
                let tail = split_max_spec(rest, d, (n - 1) as nat);
                lemma_split_max_parts(rest, d, (n - 1) as nat);
                lemma_split_max_join(rest, d, (n - 1) as nat);
                lemma_prefix_before_first(s, d, i);
                let parts = split_max_spec(s, d, n);
                assert(parts == seq![s.take(i)] + tail);
                assert forall|k: int| 0 <= k < parts.len() - 1 implies !contains_text(#[trigger] parts[k], d) by {
                    if k > 0 {
                        assert(parts[k] == tail[k - 1]);
                    }
                }
                assert(parts.last() == tail.last());
            },
            None => {
                assert forall|j: int| !occurs_at(s, d, j) by {
                    if j < 0 {
                    }
                }
            },
        }
    }
}

/// With at least as many splits allowed as the text is long, no part holds the
/// delimiter.
pub proof fn lemma_split_max_exhaustive(s: Seq<char>, d: Seq<char>, n: nat)
    requires
        d.len() > 0,
        n >= s.len(),
    ensures
        forall|i: int| 0 <= i < split_max_spec(s, d, n).len() ==> !contains_text(#[trigger] split_max_spec(s, d, n)[i], d),
    decreases n,
{
    lemma_split_max_parts(s, d, n);
    if n == 0 {
        assert(split_max_spec(s, d, n) == seq![s]);
        if contains_text(s, d) {
            let j = choose|j: int| occurs_at(s, d, j);
        }
    } else {
        lemma_first_occurrence_from(s, d, 0);
        match first_occurrence(s, d) {
            Some(i) => {
                let rest = s.skip(i + d.len());
                let tail = split_max_spec(rest, d, (n - 1) as nat);
                lemma_split_max_exhaustive(rest, d, (n - 1) as nat);
                lemma_split_max_join(rest, d, (n - 1) as nat);
                lemma_prefix_before_first(s, d, i);
                let parts = split_max_spec(s, d, n);
                assert(parts == seq![s.take(i)] + tail);
                assert forall|k: int| 0 <= k < parts.len() implies !contains_text(#[trigger] parts[k], d) by {
                    if k > 0 {
                        assert(parts[k] == tail[k - 1]);
                    }
                }
            },
            None => {
                assert forall|j: int| !occurs_at(s, d, j) by {
                    if j < 0 {
                    }
                }
            },
        }
    }
}

// ---------------------------------------------------------------------------
// Trusted calls into std
// ---------------------------------------------------------------------------

/// Appends one character (`String::push`); the string grows by exactly that character.
#[verifier::external_body]
pub(crate) fn push_char(s: &mut String, c: char)
    ensures
        final(s)@ == old(s)@.push(c),
{
    s.push(c);
}

/// The Unicode lowercase mapping that `str::to_lowercase` applies.
pub uninterp spec fn unicode_lowercase(s: Seq<char>) -> Seq<char>;

/// Unicode lowercase (`str::to_lowercase`). The result is named by
/// `unicode_lowercase` of the argument; the mapping tables themselves are not stated.
#[verifier::external_body]
pub fn to_lowercase(s: &str) -> (r: String)
    ensures
        r@ == unicode_lowercase(s@),
{
    s.to_lowercase()
}

// ---------------------------------------------------------------------------
// Verified operations
// ---------------------------------------------------------------------------

/// The characters of `s`.
pub fn chars_of(s: &str) -> (v: Vec<char>)
    ensures
        v@ == s@,
{
    let mut v: Vec<char> = Vec::new();
    for c in it: s.chars()
        invariant
            v@ == it.seq().take(it.index() as int),
            it.seq() == s@,
    {
        v.push(c);
    }
    v
}

/// A string holding exactly the characters of `v`.
pub fn string_of(v: &[char]) -> (s: String)
    ensures
        s@ == v@,
{
    let mut s = String::new();
    let mut i: usize = 0;
    while i < v.len()
        invariant
            i <= v@.len(),
            s@ == v@.take(i as int),
        decreases v@.len() - i,
    {
        push_char(&mut s, v[i]);
        i += 1;
        assert(v@.take(i as int) == v@.take((i - 1) as int).push(v@[i - 1]));
    }
    assert(v@.take(v@.len() as int) == v@);
    s
}

/// Appends `t` to `s`.
pub fn push_str(s: &mut String, t: &str)
    ensures
        final(s)@ == old(s)@ + t@,
{
    s.append(t);
}

/// A new string with the characters of `s`.
pub fn owned(s: &str) -> (r: String)
    ensures
        r@ == s@,
{
    s.to_owned()
}

/// Character-wise equality of two strings.
pub fn str_eq(a: &str, b: &str) -> (r: bool)
    ensures
        r == (a@ == b@),
{
    let av = chars_of(a);
    let bv = chars_of(b);
    if av.len() != bv.len() {
        return false;
    }
    let mut i: usize = 0;
    while i < av.len()
        invariant
            av@ == a@,
            bv@ == b@,
            av@.len() == bv@.len(),
            i <= av@.len(),
            forall|j: int| 0 <= j < i ==> av@[j] == bv@[j],
        decreases av@.len() - i,
    {
        if av[i] != bv[i] {
            return false;
        }
        i += 1;
    }
    assert(av@ =~= bv@);
    true
}

/// Whether `v` holds `p` starting at position `at`.
pub fn matches_at(v: &[char], p: &[char], at: usize) -> (r: bool)
    ensures
        r == occurs_at(v@, p@, at as int),
{
    if at > v.len() || p.len() > v.len() - at {
        return false;
    }
    let n = v.len();
    let mut j: usize = 0;
    while j < p.len()
        invariant
            n == v@.len(),
            at + p@.len() <= v@.len(),
            j <= p@.len(),
            forall|k: int| 0 <= k < j ==> v@[at + k] == p@[k],
        decreases p@.len() - j,
    {
        assert(at + j < v@.len());
        if v[at + j] != p[j] {
            assert(v@.subrange(at as int, at + p@.len())[j as int] != p@[j as int]);
            return false;
        }
        j += 1;
    }
    assert(v@.subrange(at as int, at + p@.len()) =~= p@);
    true
}

/// Whether `s` begins with `p`.
pub fn starts_with(s: &str, p: &str) -> (r: bool)
    ensures
        r == p@.is_prefix_of(s@),
{
    let sv = chars_of(s);
    let pv = chars_of(p);
    let r = matches_at(&sv, &pv, 0);
    proof {
        if p@.is_prefix_of(s@) {
            assert(s@.subrange(0, p@.len() as int) =~= p@);
        }
        if r {
            assert forall|i: int| 0 <= i < p@.len() implies p@[i] == s@[i] by {
                assert(s@.subrange(0, p@.len() as int)[i] == s@[i]);
            }
        }
    }
    r
}

/// The characters of `v` from position `k` on.
pub fn skip_chars(v: &[char], k: usize) -> (r: Vec<char>)
    requires
        k <= v@.len(),
    ensures
        r@ == v@.skip(k as int),
{
    let mut r: Vec<char> = Vec::new();
    let mut i = k;
    while i < v.len()
        invariant
            k <= i <= v@.len(),
            r@ == v@.subrange(k as int, i as int),
        decreases v@.len() - i,
    {
        r.push(v[i]);
        i += 1;
        assert(r@ =~= v@.subrange(k as int, i as int));
    }
    r
}

/// The first `k` characters of `v`.
pub fn take_chars(v: &[char], k: usize) -> (r: Vec<char>)
    requires
        k <= v@.len(),
    ensures
        r@ == v@.take(k as int),
{
    let mut r: Vec<char> = Vec::new();
    let mut i: usize = 0;
    while i < k
        invariant
            i <= k <= v@.len(),
            r@ == v@.take(i as int),
        decreases k - i,
    {
        r.push(v[i]);
        i += 1;
        assert(r@ =~= v@.take(i as int));
    }
    r
}

/// The first position at or after `from` where `d` occurs in `v`.
pub fn find_from(v: &[char], d: &[char], from: usize) -> (r: Option<usize>)
    ensures
        match r {
            Some(i) => first_occurrence_from(v@, d@, from as int) == Some(i as int),
            None => first_occurrence_from(v@, d@, from as int) is None,
        },
{
    if from > v.len() || d.len() > v.len() - from {
        return None;
    }
    let last = v.len() - d.len();
    let mut i = from;
    loop
        invariant
            from <= i <= last,
            last + d@.len() == v@.len(),
            first_occurrence_from(v@, d@, from as int) == first_occurrence_from(
                v@,
                d@,
                i as int,
            ),
        decreases last + 1 - i,
    {
        if matches_at(v, d, i) {
            return Some(i);
        }
        if i == last {
            assert(first_occurrence_from(v@, d@, i + 1) is None);
            return None;
        }
        i += 1;
    }
}

/// Splits `s` on `delim` at most `max_splits` times.
pub fn split_max(s: &str, delim: &str, max_splits: usize) -> (parts: Vec<String>)
    ensures
        views(parts@) == split_max_spec(s@, delim@, max_splits as nat),
{
    let d = chars_of(delim);
    let mut rest = chars_of(s);
    let mut parts: Vec<String> = Vec::new();
    let mut splits: usize = 0;
    while splits < max_splits
        invariant_except_break
            splits <= max_splits,
            d@ == delim@,
            views(parts@) + split_max_spec(rest@, d@, (max_splits - splits) as nat)
                == split_max_spec(s@, delim@, max_splits as nat),
        ensures
            d@ == delim@,
            views(parts@) + seq![rest@] == split_max_spec(s@, delim@, max_splits as nat),
        decreases max_splits - splits,
    {
        let ghost old_parts = parts@;
        match find_from(&rest, &d, 0) {
            Some(pos) => {
                proof {
                    lemma_first_occurrence_from(rest@, d@, 0);
                    assert(occurs_at(rest@, d@, pos as int));
                }
                let rest_len = rest.len();
                assert(pos + d@.len() <= rest_len);
                let head = take_chars(&rest, pos);
                parts.push(string_of(&head));
                let tail = skip_chars(&rest, pos + d.len());
                proof {
                    assert(views(parts@) =~= views(old_parts) + seq![rest@.take(pos as int)]);
                    assert(split_max_spec(rest@, d@, (max_splits - splits) as nat) == seq![
                        rest@.take(pos as int),
                    ] + split_max_spec(
                        rest@.skip(pos + d@.len()),
                        d@,
                        (max_splits - splits - 1) as nat,
                    ));
                    assert(views(parts@) + split_max_spec(
                        tail@,
                        d@,
                        (max_splits - splits - 1) as nat,
                    ) =~= views(old_parts) + split_max_spec(
                        rest@,
                        d@,
                        (max_splits - splits) as nat,
                    ));
                }
                rest = tail;
                splits += 1;
            },
            None => {
                break ;
            },
        }
    }
    let ghost before = parts@;
    parts.push(string_of(&rest));
    proof {
        assert(views(parts@) =~= views(before) + seq![rest@]);
    }
    parts
}

/// Replaces every non-overlapping occurrence of `p`, left to right (`str::replace`).
pub fn replace(s: &str, p: &str, r: &str) -> (out: String)
    requires
        p@.len() > 0,
    ensures
        out@ == replace_all(s@, p@, r@),
{
    let v = chars_of(s);
    let pv = chars_of(p);
    let mut out = String::new();
    let mut i: usize = 0;
    assert(v@.skip(0) =~= v@);
    assert(out@ + replace_all(v@, p@, r@) =~= replace_all(v@, p@, r@));
    while i < v.len()
        invariant
            v@ == s@,
            pv@ == p@,
            p@.len() > 0,
            i <= v@.len(),
            out@ + replace_all(v@.skip(i as int), p@, r@) == replace_all(s@, p@, r@),
        decreases v@.len() - i,
    {
        let ghost rest = v@.skip(i as int);
        let ghost before = out@;
        if matches_at(&v, &pv, i) {
            proof {
                assert(rest.take(p@.len() as int) =~= v@.subrange(i as int, i + p@.len()));
                assert(rest.skip(p@.len() as int) =~= v@.skip(i + p@.len()));
            }
            push_str(&mut out, r);
            i += pv.len();
            proof {
                assert(before + r@ + replace_all(v@.skip(i as int), p@, r@) =~= before + (r@
                    + replace_all(v@.skip(i as int), p@, r@)));
            }
        } else {
            proof {
                if rest.len() >= p@.len() {
                    assert(rest.take(p@.len() as int) =~= v@.subrange(i as int, i + p@.len()));
                }
                assert(rest.skip(1) =~= v@.skip(i + 1));
            }
            push_char(&mut out, v[i]);
            i += 1;
            proof {
                assert(before.push(rest[0]) + replace_all(v@.skip(i as int), p@, r@) =~= before
                    + (seq![rest[0]] + replace_all(v@.skip(i as int), p@, r@)));
            }
        }
    }
    proof {
        assert(v@.skip(i as int) =~= Seq::<char>::empty());
        assert(out@ + Seq::<char>::empty() =~= out@);
    }
    out
}

/// ASCII lowercase (`str::to_ascii_lowercase`).
pub fn to_ascii_lowercase(s: &str) -> (out: String)
    ensures
        out@ == ascii_lowercase(s@),
{
    let v = chars_of(s);
    let mut out = String::new();
    let mut i: usize = 0;
    while i < v.len()
        invariant
            v@ == s@,
            i <= v@.len(),
            out@ == ascii_lowercase(v@.take(i as int)),
        decreases v@.len() - i,
    {
        let c = v[i];
        let lc = if 'A' <= c && c <= 'Z' {
            ((c as u8) + 32) as char
        } else {
            c
        };
        assert(lc == ascii_lower(c)) by {
            if 'A' <= c && c <= 'Z' {
                assert((c as u8) as u32 == c as u32);
            }
        }
        push_char(&mut out, lc);
        i += 1;
        assert(ascii_lowercase(v@.take(i as int)) =~= ascii_lowercase(v@.take((i - 1) as int)).push(
            lc,
        ));
    }
    assert(v@.take(v@.len() as int) =~= v@);
    out
}

/// Whether `c` is Unicode white space (`char::is_whitespace`).
pub fn is_whitespace_char(c: char) -> (r: bool)
    ensures
        r == is_whitespace(c),
{
    let u = c as u32;
    (0x09 <= u && u <= 0x0d) || u == 0x20 || u == 0x85 || u == 0xa0 || u == 0x1680 || (0x2000
        <= u && u <= 0x200a) || u == 0x2028 || u == 0x2029 || u == 0x202f || u == 0x205f || u
        == 0x3000
}

/// The length of `v` once trailing white space is dropped.
fn trimmed_end_len(v: &[char]) -> (n: usize)
    ensures
        n <= v@.len(),
        v@.take(n as int) == trim_end(v@),
{
    let mut n = v.len();
    assert(v@.take(n as int) =~= v@);
    while n > 0 && is_whitespace_char(v[n - 1])
        invariant
            n <= v@.len(),
            trim_end(v@.take(n as int)) == trim_end(v@),
        decreases n,
    {
        assert(v@.take(n as int).drop_last() =~= v@.take(n - 1));
        n -= 1;
    }
    n
}

/// The position of the first character of `v` that is not white space.
fn trimmed_start_pos(v: &[char]) -> (k: usize)
    ensures
        k <= v@.len(),
        v@.skip(k as int) == trim_start(v@),
{
    let mut k: usize = 0;
    assert(v@.skip(0) =~= v@);
    while k < v.len() && is_whitespace_char(v[k])
        invariant
            k <= v@.len(),
            trim_start(v@.skip(k as int)) == trim_start(v@),
        decreases v@.len() - k,
    {
        assert(v@.skip(k as int).drop_first() =~= v@.skip(k + 1));
        k += 1;
    }
    k
}

/// `s` without trailing white space (`str::trim_end`).
pub fn trim_end_str(s: &str) -> (out: String)
    ensures
        out@ == trim_end(s@),
{
    let v = chars_of(s);
    let n = trimmed_end_len(&v);
    let t = take_chars(&v, n);
    string_of(&t)
}

/// `s` without leading and trailing white space (`str::trim`).
pub fn trim_str(s: &str) -> (out: String)
    ensures
        out@ == trim(s@),
{
    let v = chars_of(s);
    let n = trimmed_end_len(&v);
    let t = take_chars(&v, n);
    let k = trimmed_start_pos(&t);
    let u = skip_chars(&t, k);
    string_of(&u)
}

/// The decimal digit character for `d < 10`.
fn digit(d: u64) -> (c: char)
    requires
        d < 10,
    ensures
        c == digit_char(d as nat),
{
    let b: u8 = 48u8 + (d as u8);
    b as char
}

/// Decimal text of an unsigned integer (`u64::to_string`).
pub fn u64_text(n: u64) -> (s: String)
    ensures
        s@ == decimal(n as nat),
    decreases n,
{
    if n < 10 {
        let mut s = String::new();
        push_char(&mut s, digit(n));
        assert(s@ =~= seq![digit_char(n as nat)]);
        s
    } else {
        let mut s = u64_text(n / 10);
        push_char(&mut s, digit(n % 10));
        s
    }
}

/// Decimal text of a signed integer (`i64::to_string`).
pub fn i64_text(n: i64) -> (s: String)
    ensures
        s@ == int_text(n as int),
{
    if n < 0 {
        let m: u64 = (-(n as i128)) as u64;
        let mut s = String::new();
        push_char(&mut s, '-');
        let t = u64_text(m);
        push_str(&mut s, t.as_str());
        assert(s@ =~= seq!['-'] + decimal(m as nat));
        s
    } else {
        u64_text(n as u64)
    }
}

/// The text `true` or `false` (`bool::to_string`).
pub fn bool_str(b: bool) -> (s: String)
    ensures
        s@ == bool_text(b),
{
    let mut s = String::new();
    if b {
        push_str(&mut s, "true");
        proof {
            reveal_strlit("true");
        }
        assert(s@ =~= bool_text(b));
    } else {
        push_str(&mut s, "false");
        proof {
            reveal_strlit("false");
        }
        assert(s@ =~= bool_text(b));
    }
    s
}

/// Appends `n` spaces.
pub fn push_spaces(s: &mut String, n: usize)
    ensures
        final(s)@ == old(s)@ + spaces(n as nat),
{
    let mut i: usize = 0;
    while i < n
        invariant
            i <= n,
            s@ == old(s)@ + spaces(i as nat),
        decreases n - i,
    {
        push_char(s, ' ');
        i += 1;
        assert(s@ =~= old(s)@ + spaces(i as nat));
    }
}

/// The number of characters of `s`.
pub fn char_count(s: &str) -> (n: usize)
    ensures
        n == s@.len(),
{
    chars_of(s).len()
}

/// Appends `cell` right-aligned in a field of `width` characters.
pub fn push_padded_left(line: &mut String, cell: &str, width: usize)
    ensures
        final(line)@ == old(line)@ + pad_left_spec(cell@, width as nat),
{
    let n = char_count(cell);
    if n < width {
        push_spaces(line, width - n);
    }
    push_str(line, cell);
    assert(line@ =~= old(line)@ + pad_left_spec(cell@, width as nat));
}

/// Appends `cell` left-aligned in a field of `width` characters.
pub fn push_padded_right(line: &mut String, cell: &str, width: usize)
    ensures
        final(line)@ == old(line)@ + pad_right_spec(cell@, width as nat),
{
    let n = char_count(cell);
    push_str(line, cell);
    if n < width {
        push_spaces(line, width - n);
    }
    assert(line@ =~= old(line)@ + pad_right_spec(cell@, width as nat));
}

/// Joins `parts` with `sep` (`slice::join`).
pub fn join_strings(parts: &[String], sep: &str) -> (out: String)
    ensures
        out@ == join(views(parts@), sep@),
{
    let mut out = String::new();
    let mut i: usize = 0;
    while i < parts.len()
        invariant
            i <= parts@.len(),
            out@ == join(views(parts@.take(i as int)), sep@),
        decreases parts@.len() - i,
    {
        let ghost before = out@;
        if i > 0 {
            push_str(&mut out, sep);
        }
        push_str(&mut out, parts[i].as_str());
        i += 1;
        proof {
            let vs = views(parts@.take(i as int));
            assert(vs.drop_last() =~= views(parts@.take(i - 1)));
            assert(vs.last() == parts@[i - 1]@);
            if i == 1 {
                assert(before =~= Seq::<char>::empty());
                assert(out@ =~= parts@[0]@);
            }
        }
    }
    assert(parts@.take(parts@.len() as int) =~= parts@);
    out
}

// ---------------------------------------------------------------------------
// The order of strings
// ---------------------------------------------------------------------------

/// No text comes before itself.
pub proof fn lemma_text_lt_irreflexive(a: Seq<char>)
    ensures
        !text_lt(a, a),
    decreases a.len(),
{
    if a.len() > 0 {
        lemma_text_lt_irreflexive(a.drop_first());
    }
}

/// The order of texts is transitive.
pub proof fn lemma_text_lt_transitive(a: Seq<char>, b: Seq<char>, c: Seq<char>)
    requires
        text_lt(a, b),
        text_lt(b, c),
    ensures
        text_lt(a, c),
    decreases a.len(),
{
    if a.len() > 0 && b.len() > 0 && c.len() > 0 && a[0] == b[0] && b[0] == c[0] {
        lemma_text_lt_transitive(a.drop_first(), b.drop_first(), c.drop_first());
    }
}

/// Of two different texts, one comes first.
pub proof fn lemma_text_lt_total(a: Seq<char>, b: Seq<char>)
    ensures
        a == b || text_lt(a, b) || text_lt(b, a),
    decreases a.len(),
{
    if a.len() > 0 && b.len() > 0 {
        if a[0] == b[0] {
            lemma_text_lt_total(a.drop_first(), b.drop_first());
            if a.drop_first() == b.drop_first() {
                assert(a.drop_first().len() == a.len() - 1);
                assert(b.drop_first().len() == b.len() - 1);
                assert forall|i: int| 0 <= i < a.len() implies a[i] == b[i] by {
                    if i > 0 {
                        assert(a[i] == a.drop_first()[i - 1]);
                        assert(b[i] == b.drop_first()[i - 1]);
                    }
                }
                assert(a =~= b);
            } else if text_lt(a.drop_first(), b.drop_first()) {
                assert(text_lt(a, b));
            } else {
                assert(text_lt(b, a));
            }
        } else {
            vstd::utf8::char_u32_cast(a[0], a[0] as u32);
            vstd::utf8::char_u32_cast(b[0], b[0] as u32);
        }
    } else if a.len() == 0 && b.len() == 0 {
        assert(a =~= b);
    }
}


/// Whether `a` sorts before `b` (`a < b` on strings).
pub fn text_less(a: &str, b: &str) -> (r: bool)
    ensures
        r == text_lt(a@, b@),
{
    let av = chars_of(a);
    let bv = chars_of(b);
    let mut i: usize = 0;
    assert(a@.skip(0) =~= a@);
    assert(b@.skip(0) =~= b@);
    while i < av.len() && i < bv.len()
        invariant
            av@ == a@,
            bv@ == b@,
            i <= av@.len(),
            i <= bv@.len(),
            text_lt(a@, b@) == text_lt(a@.skip(i as int), b@.skip(i as int)),
        decreases av@.len() - i,
    {
        let x = av[i];
        let y = bv[i];
        assert(a@.skip(i as int)[0] == x);
        assert(b@.skip(i as int)[0] == y);
        if x != y {
            return (x as u32) < (y as u32);
        }
        assert(a@.skip(i as int).drop_first() =~= a@.skip(i + 1));
        assert(b@.skip(i as int).drop_first() =~= b@.skip(i + 1));
        i += 1;
    }
    i < bv.len()
}

} // verus!
