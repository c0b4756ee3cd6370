//! Character-sequence helpers for the text protocols the library reads
//! (NMEA sentences, KML coordinate lists, model replies): Unicode
//! whitespace, trimming, splitting on a separator, searching, the
//! integer syntaxes accepted by Rust's `u8` parsers, and ASCII text (whose
//! every byte offset is a character boundary).

use vstd::prelude::*;
use vstd::utf8::{encode_utf8, is_char_boundary};

verus! {

/// Characters with the Unicode `White_Space` property (the set tested by
/// `char::is_whitespace`).
pub open spec fn is_ws(c: char) -> bool {
    let u = c as u32;
    (0x09 <= u && u <= 0x0D) || u == 0x20 || u == 0x85 || u == 0xA0 || u == 0x1680 || (0x2000
        <= u && u <= 0x200A) || u == 0x2028 || u == 0x2029 || u == 0x202F || u == 0x205F || u
        == 0x3000
}

/// `s` without trailing whitespace (`str::trim_end`).
pub open spec fn trim_end(s: Seq<char>) -> Seq<char>
    decreases s.len(),
{
    if s.len() > 0 && is_ws(s.last()) {
        trim_end(s.drop_last())
    } else {
        s
    }
}

/// Number of leading whitespace characters of `s`.
pub open spec fn leading_ws(s: Seq<char>) -> nat
    decreases s.len(),
{
    if s.len() > 0 && is_ws(s[0]) {
        1 + leading_ws(s.drop_first())
    } else {
        0
    }
}

/// `s` without leading or trailing whitespace (`str::trim`).
pub open spec fn trim(s: Seq<char>) -> Seq<char> {
    trim_end(s.subrange(leading_ws(s) as int, s.len() as int))
}

/// Number of occurrences of `c` in `s`.
pub open spec fn count_char(s: Seq<char>, c: char) -> nat
    decreases s.len(),
{
    if s.len() == 0 {
        0
    } else {
        count_char(s.drop_last(), c) + if s.last() == c { 1nat } else { 0nat }
    }
}

/// Index of the first `c` in `s`, or `s.len()` when absent.
pub open spec fn first_index(s: Seq<char>, c: char) -> nat
    decreases s.len(),
{
    if s.len() == 0 {
        0
    } else if s[0] == c {
        0
    } else {
        1 + first_index(s.drop_first(), c)
    }
}

/// Number of leading occurrences of `c` in `s`.
pub open spec fn leading_count(s: Seq<char>, c: char) -> nat
    decreases s.len(),
{
    if s.len() > 0 && s[0] == c {
        1 + leading_count(s.drop_first(), c)
    } else {
        0
    }
}

/// State of splitting the first `n` characters of `s` on `sep`:
/// the completed pieces and the piece being built.
pub open spec fn split_prefix(s: Seq<char>, sep: char, n: nat) -> (Seq<Seq<char>>, Seq<char>)
    decreases n,
{
    if n == 0 {
        (seq![], seq![])
    } else {
        let (done, cur) = split_prefix(s, sep, (n - 1) as nat);
        if s[n - 1] == sep {
            (done.push(cur), seq![])
        } else {
            (done, cur.push(s[n - 1]))
        }
    }
}

/// The pieces of `s` between occurrences of `sep` (`str::split`); never empty.
pub open spec fn split(s: Seq<char>, sep: char) -> Seq<Seq<char>> {
    let (done, cur) = split_prefix(s, sep, s.len());
    done.push(cur)
}

/// Decimal value of a string of ASCII digits.
pub open spec fn digits_value(d: Seq<char>) -> nat
    decreases d.len(),
{
    if d.len() == 0 {
        0
    } else {
        digits_value(d.drop_last()) * 10 + ((d.last() as u32) - 48) as nat
    }
}

pub open spec fn is_digit(c: char) -> bool {
    '0' <= c && c <= '9'
}

pub open spec fn all_digits(d: Seq<char>) -> bool {
    forall|k: int| 0 <= k < d.len() ==> is_digit(#[trigger] d[k])
}

/// `u8::from_str`: an optional `+` followed by one or more ASCII digits
/// whose value fits in a `u8`.
pub open spec fn parse_u8(s: Seq<char>) -> Option<u8> {
    let d = if s.len() > 0 && s[0] == '+' {
        s.drop_first()
    } else {
        s
    };
    if d.len() > 0 && all_digits(d) && digits_value(d) <= 255 {
        Some(digits_value(d) as u8)
    } else {
        None
    }
}

/// The characters of `s`.
pub fn chars_of(s: &str) -> (v: Vec<char>)
    ensures
        v@ == s@,
{
    let mut v: Vec<char> = Vec::new();
    for c in it: s.chars()
        invariant
            it.seq() == s@,
            v@ == it.seq().take(it.index() as int),
    {
        v.push(c);
        assert(v@ =~= it.seq().take(it.index() + 1));
    }
    assert(v@ =~= s@);
    v
}

/// `char::is_whitespace`.
pub fn is_whitespace(c: char) -> (b: bool)
    ensures
        b == is_ws(c),
{
    let u = c as u32;
    (0x09 <= u && u <= 0x0D) || u == 0x20 || u == 0x85 || u == 0xA0 || u == 0x1680 || (0x2000
        <= u && u <= 0x200A) || u == 0x2028 || u == 0x2029 || u == 0x202F || u == 0x205F || u
        == 0x3000
}

/// End (exclusive) of `s[from..to]` once trailing whitespace is removed.
pub fn trim_end_at(s: &Vec<char>, from: usize, to: usize) -> (end: usize)
    requires
        from <= to <= s@.len(),
    ensures
        from <= end <= to,
        s@.subrange(from as int, end as int) == trim_end(s@.subrange(from as int, to as int)),
{
    let mut end = to;
    while end > from && is_whitespace(s[end - 1])
        invariant
            from <= end <= to <= s@.len(),
            trim_end(s@.subrange(from as int, end as int)) == trim_end(
                s@.subrange(from as int, to as int),
            ),
        decreases end - from,
    {
        assert(s@.subrange(from as int, end - 1) =~= s@.subrange(from as int, end as int).drop_last());
        end = end - 1;
    }
    proof {
        let t = s@.subrange(from as int, end as int);
        if end > from {
            assert(t.last() == s@[end - 1]);
        }
    }
    end
}

/// Start of `s[from..to]` once leading whitespace is removed.
pub fn trim_start_at(s: &Vec<char>, from: usize, to: usize) -> (start: usize)
    requires
        from <= to <= s@.len(),
    ensures
        from <= start <= to,
        start == from + leading_ws(s@.subrange(from as int, to as int)),
{
    let mut start = from;
    while start < to && is_whitespace(s[start])
        invariant
            from <= start <= to <= s@.len(),
            from + leading_ws(s@.subrange(from as int, to as int)) == start + leading_ws(
                s@.subrange(start as int, to as int),
            ),
        decreases to - start,
    {
        assert(s@.subrange(start + 1, to as int) =~= s@.subrange(start as int, to as int).drop_first());
        start = start + 1;
    }
    start
}

/// `[from, to)` of `s` with leading and trailing whitespace removed.
pub fn trim_at(s: &Vec<char>, from: usize, to: usize) -> (r: (usize, usize))
    requires
        from <= to <= s@.len(),
    ensures
        from <= r.0 <= r.1 <= to,
        s@.subrange(r.0 as int, r.1 as int) == trim(s@.subrange(from as int, to as int)),
{
    let a = trim_start_at(s, from, to);
    let b = trim_end_at(s, a, to);
    assert(s@.subrange(a as int, to as int) =~= s@.subrange(from as int, to as int).subrange(
        leading_ws(s@.subrange(from as int, to as int)) as int,
        (to - from) as int,
    ));
    (a, b)
}

/// Ranges `[start, end)` of the pieces of `s[from..to]` split on `sep`.
pub fn split_ranges(s: &Vec<char>, from: usize, to: usize, sep: char) -> (r: Vec<(usize, usize)>)
    requires
        from <= to <= s@.len(),
    ensures
        r@.len() == split(s@.subrange(from as int, to as int), sep).len(),
        forall|k: int|
            0 <= k < r@.len() ==> from <= (#[trigger] r@[k]).0 <= r@[k].1 <= to && s@.subrange(
                r@[k].0 as int,
                r@[k].1 as int,
            ) == split(s@.subrange(from as int, to as int), sep)[k],
{
    let ghost t = s@.subrange(from as int, to as int);
    let mut r: Vec<(usize, usize)> = Vec::new();
    let mut start = from;
    let mut i = from;
    while i < to
        invariant
            from <= start <= i <= to <= s@.len(),
            t == s@.subrange(from as int, to as int),
            r@.len() == split_prefix(t, sep, (i - from) as nat).0.len(),
            s@.subrange(start as int, i as int) == split_prefix(t, sep, (i - from) as nat).1,
            forall|k: int|
                0 <= k < r@.len() ==> from <= (#[trigger] r@[k]).0 <= r@[k].1 <= to
                    && s@.subrange(r@[k].0 as int, r@[k].1 as int) == split_prefix(
                    t,
                    sep,
                    (i - from) as nat,
                ).0[k],
        decreases to - i,
    {
        let ghost n = (i - from + 1) as nat;
        assert(t[n - 1] == s@[i as int]);
        if s[i] == sep {
            r.push((start, i));
            start = i + 1;
            assert(s@.subrange(start as int, (i + 1) as int) =~= Seq::<char>::empty());
        } else {
            assert(s@.subrange(start as int, (i + 1) as int) =~= s@.subrange(start as int, i as int).push(
                s@[i as int],
            ));
        }
        i = i + 1;
    }
    r.push((start, to));
    assert(t.len() == to - from);
    r
}

/// `u8::from_str` on `s[from..to]`.
pub fn parse_u8_at(s: &Vec<char>, from: usize, to: usize) -> (r: Option<u8>)
    requires
        from <= to <= s@.len(),
    ensures
        r == parse_u8(s@.subrange(from as int, to as int)),
{
    let ghost t = s@.subrange(from as int, to as int);
    let a = if from < to && s[from] == '+' {
        from + 1
    } else {
        from
    };
    let ghost d = s@.subrange(a as int, to as int);
    assert(d =~= (if t.len() > 0 && t[0] == '+' {
        t.drop_first()
    } else {
        t
    }));
    if a >= to {
        return None;
    }
    if !all_digits_exec(s, a, to) {
        return None;
    }
    let mut acc: u32 = 0;
    let mut i = a;
    while i < to
        invariant
            a <= i <= to <= s@.len(),
            from <= a,
            d == s@.subrange(a as int, to as int),
            t == s@.subrange(from as int, to as int),
            d == (if t.len() > 0 && t[0] == '+' {
                t.drop_first()
            } else {
                t
            }),
            all_digits(d),
            acc == digits_value(s@.subrange(a as int, i as int)),
            acc <= 255,
        decreases to - i,
    {
        let c = s[i];
        let ghost p = s@.subrange(a as int, (i + 1) as int);
        assert(p.drop_last() =~= s@.subrange(a as int, i as int));
        assert(p.last() == c);
        assert(c == d[i - a]);
        acc = acc * 10 + (c as u32 - 48);
        assert(digits_value(p) == acc);
        if acc > 255 {
            proof {
                lemma_digits_value_prefix_mono(d, (i + 1 - a) as nat);
                assert(d.take((i + 1 - a) as int) =~= p);
            }
            return None;
        }
        i = i + 1;
    }
    assert(s@.subrange(a as int, i as int) =~= d);
    Some(acc as u8)
}

/// Whether every character of `s[from..to]` is an ASCII digit.
pub fn all_digits_exec(s: &Vec<char>, from: usize, to: usize) -> (b: bool)
    requires
        from <= to <= s@.len(),
    ensures
        b == all_digits(s@.subrange(from as int, to as int)),
{
    let mut i = from;
    while i < to
        invariant
            from <= i <= to <= s@.len(),
            all_digits(s@.subrange(from as int, i as int)),
        decreases to - i,
    {
        if !('0' <= s[i] && s[i] <= '9') {
            assert(!is_digit(s@.subrange(from as int, to as int)[i - from]));
            return false;
        }
        assert forall|k: int| 0 <= k < i + 1 - from implies is_digit(
            #[trigger] s@.subrange(from as int, (i + 1) as int)[k],
        ) by {
            if k < i - from {
                assert(s@.subrange(from as int, (i + 1) as int)[k] == s@.subrange(
                    from as int,
                    i as int,
                )[k]);
            }
        }
        i = i + 1;
    }
    true
}

/// Digit strings only grow in value as digits are appended.
pub proof fn lemma_digits_value_prefix_mono(d: Seq<char>, n: nat)
    requires
        n <= d.len(),
        all_digits(d),
    ensures
        digits_value(d.take(n as int)) <= digits_value(d),
    decreases d.len() - n,
{
    if n < d.len() {
        lemma_digits_value_prefix_mono(d, n + 1);
        let p = d.take((n + 1) as int);
        assert(p.drop_last() =~= d.take(n as int));
        assert(is_digit(d[n as int]));
    } else {
        assert(d.take(n as int) =~= d);
    }
}

/// Whether `s` starts with `p`.
pub open spec fn starts_with(s: Seq<char>, p: Seq<char>) -> bool {
    p.len() <= s.len() && s.take(p.len() as int) == p
}

/// Whether `s` ends with `p`.
pub open spec fn ends_with(s: Seq<char>, p: Seq<char>) -> bool {
    p.len() <= s.len() && s.skip(s.len() - p.len()) == p
}

/// Whether `v[at..]` starts with the characters of `p`.
pub fn has_at(v: &Vec<char>, at: usize, end: usize, p: &str) -> (b: bool)
    requires
        at <= end <= v@.len(),
    ensures
        b == starts_with(v@.subrange(at as int, end as int), p@),
{
    let pv = chars_of(p);
    if pv.len() > end - at {
        return false;
    }
    let mut i: usize = 0;
    while i < pv.len()
        invariant
            at <= end <= v@.len(),
            pv@ == p@,
            pv.len() <= end - at,
            i <= pv.len(),
            forall|k: int| 0 <= k < i ==> v@[at + k] == pv@[k],
        decreases pv.len() - i,
    {
        if v[at + i] != pv[i] {
            assert(v@.subrange(at as int, end as int).take(pv.len() as int)[i as int] != p@[i as int]);
            return false;
        }
        i = i + 1;
    }
    assert(v@.subrange(at as int, end as int).take(pv.len() as int) =~= p@);
    true
}

/// Whether `v[..end]`, from `start`, ends with the characters of `p`.
pub fn has_before(v: &Vec<char>, start: usize, end: usize, p: &str) -> (b: bool)
    requires
        start <= end <= v@.len(),
    ensures
        b == ends_with(v@.subrange(start as int, end as int), p@),
{
    let pv = chars_of(p);
    if pv.len() > end - start {
        return false;
    }
    let from = end - pv.len();
    let r = has_at(v, from, end, p);
    proof {
        let w = v@.subrange(start as int, end as int);
        assert(w.skip(w.len() - p@.len()) =~= v@.subrange(from as int, end as int));
        assert(v@.subrange(from as int, end as int).take(p@.len() as int) =~= v@.subrange(
            from as int,
            end as int,
        ));
    }
    r
}

/// Whether `p` occurs in `s` at some position.
pub open spec fn contains_at(s: Seq<char>, p: Seq<char>) -> bool {
    exists|k: int| 0 <= k <= s.len() - p.len() && #[trigger] s.subrange(k, k + p.len()) == p
}

/// Whether the text `s` contains `p` (`str::contains` with a string pattern).
pub fn contains_str(s: &str, p: &str) -> (b: bool)
    ensures
        b == contains_at(s@, p@),
{
    let v = chars_of(s);
    let n = v.len();
    let m = p.unicode_len();
    if m > n {
        return false;
    }
    if m == 0 {
        assert(s@.subrange(0int, 0int + p@.len()) =~= p@);
        return true;
    }
    let mut k: usize = 0;
    while k < n - m + 1
        invariant
            v@ == s@,
            n == s@.len(),
            m == p@.len(),
            0 < m <= n,
            k <= n - m + 1,
            forall|q: int| 0 <= q < k ==> #[trigger] s@.subrange(q, q + m) != p@,
        decreases n - m + 1 - k,
    {
        if has_at(&v, k, k + m, p) {
            assert(v@.subrange(k as int, (k + m) as int).take(m as int) =~= s@.subrange(k as int, k + m));
            return true;
        }
        assert(v@.subrange(k as int, (k + m) as int).take(m as int) =~= s@.subrange(k as int, k + m));
        k = k + 1;
    }
    false
}

// ---------------------------------------------------------------------------
// ASCII text
// ---------------------------------------------------------------------------

/// Every character of `s` is ASCII.
pub open spec fn ascii(s: Seq<char>) -> bool {
    forall|i: int| 0 <= i < s.len() ==> (#[trigger] s[i] as u32) < 128
}

/// Whether `s` is ASCII text.
pub fn is_ascii_text(s: &str) -> (b: bool)
    ensures
        b == ascii(s@),
{
    let v = chars_of(s);
    let mut i: usize = 0;
    while i < v.len()
        invariant
            i <= v@.len(),
            v@ == s@,
            forall|k: int| 0 <= k < i ==> (#[trigger] v@[k] as u32) < 128,
        decreases v.len() - i,
    {
        if (v[i] as u32) >= 128 {
            return false;
        }
        i = i + 1;
    }
    true
}

/// The UTF-8 encoding of ASCII text has one byte per character, equal to
/// its code.
pub proof fn lemma_ascii_encoding(s: Seq<char>)
    requires
        ascii(s),
    ensures
        encode_utf8(s).len() == s.len(),
        forall|i: int| 0 <= i < s.len() ==> #[trigger] encode_utf8(s)[i] == s[i] as u32,
    decreases s.len(),
{
    if s.len() > 0 {
        let t = s.drop_first();
        assert(ascii(t)) by {
            assert forall|i: int| 0 <= i < t.len() implies (#[trigger] t[i] as u32) < 128 by {
                assert(t[i] == s[i + 1]);
            }
        }
        lemma_ascii_encoding(t);
        let c = s[0] as u32;
        assert(c < 128);
        assert((c & 0x7F) == c) by (bit_vector)
            requires
                c < 128,
        ;
        assert forall|i: int| 0 <= i < s.len() implies #[trigger] encode_utf8(s)[i] == s[i] as u32 by {
            if i > 0 {
                assert(encode_utf8(s)[i] == encode_utf8(t)[i - 1]);
                assert(t[i - 1] == s[i]);
            }
        }
    }
}

/// Every byte offset of ASCII text is a character boundary.
pub proof fn lemma_ascii_char_boundaries(s: Seq<char>)
    requires
        ascii(s),
    ensures
        forall|k: int| 0 <= k <= encode_utf8(s).len() ==> #[trigger] is_char_boundary(encode_utf8(s), k),
{
    broadcast use vstd::utf8::encode_utf8_valid_utf8, vstd::utf8::is_char_boundary_start_end_of_seq,
        vstd::utf8::is_char_boundary_iff_not_is_continuation_byte;
    lemma_ascii_encoding(s);
    let b = encode_utf8(s);
    assert forall|k: int| 0 <= k <= b.len() implies #[trigger] is_char_boundary(b, k) by {
        if k < b.len() {
            assert(b[k] == s[k] as u32);
            assert(b[k] < 128);
            assert(!vstd::utf8::is_continuation_byte(b[k]));
        } else {
            assert(is_char_boundary(b, b.len() as int));
        }
    }
}

/// Characters taken from ASCII text are ASCII.
pub proof fn lemma_ascii_subrange(s: Seq<char>, a: int, b: int)
    requires
        ascii(s),
        0 <= a <= b <= s.len(),
    ensures
        ascii(s.subrange(a, b)),
{
    assert forall|i: int| 0 <= i < b - a implies (#[trigger] s.subrange(a, b)[i] as u32) < 128 by {
        assert(s.subrange(a, b)[i] == s[a + i]);
    }
}

/// Trimming ASCII text keeps it ASCII.
pub proof fn lemma_ascii_trim_end(s: Seq<char>)
    requires
        ascii(s),
    ensures
        ascii(trim_end(s)),
    decreases s.len(),
{
    if s.len() > 0 && is_ws(s.last()) {
        lemma_ascii_subrange(s, 0, s.len() - 1);
        assert(s.drop_last() =~= s.subrange(0, s.len() - 1));
        lemma_ascii_trim_end(s.drop_last());
    }
}

proof fn lemma_ascii_split_prefix(s: Seq<char>, sep: char, n: nat)
    requires
        ascii(s),
        n <= s.len(),
    ensures
        forall|k: int| 0 <= k < split_prefix(s, sep, n).0.len() ==> ascii(#[trigger] split_prefix(s, sep, n).0[k]),
        ascii(split_prefix(s, sep, n).1),
    decreases n,
{
    if n > 0 {
        lemma_ascii_split_prefix(s, sep, (n - 1) as nat);
        let (done, cur) = split_prefix(s, sep, (n - 1) as nat);
        if s[n - 1] != sep {
            let c2 = cur.push(s[n - 1]);
            assert forall|i: int| 0 <= i < c2.len() implies (#[trigger] c2[i] as u32) < 128 by {
                if i < cur.len() {
                    assert(c2[i] == cur[i]);
                }
            }
        } else {
            let d2 = done.push(cur);
            assert forall|k: int| 0 <= k < d2.len() implies ascii(#[trigger] d2[k]) by {
                if k < done.len() {
                    assert(d2[k] == done[k]);
                }
            }
        }
    }
}

/// The fields of ASCII text split on a separator are ASCII.
pub proof fn lemma_ascii_split(s: Seq<char>, sep: char)
    requires
        ascii(s),
    ensures
        forall|k: int| 0 <= k < split(s, sep).len() ==> ascii(#[trigger] split(s, sep)[k]),
{
    lemma_ascii_split_prefix(s, sep, s.len());
    let (done, cur) = split_prefix(s, sep, s.len());
    assert forall|k: int| 0 <= k < split(s, sep).len() implies ascii(#[trigger] split(s, sep)[k]) by {
        if k < done.len() {
            assert(split(s, sep)[k] == done[k]);
        }
    }
}


} // verus!
