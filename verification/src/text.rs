//! Character-level helpers shared by the formatters and parsers: decimal
//! rendering of unsigned integers, zero padding and hexadecimal digits.

use vstd::prelude::*;
use vstd::string::*;

verus! {

/// The ASCII character of a decimal digit `d` (0..=9).
pub open spec fn digit_char(d: nat) -> char {
    (48 + d) as char
}

/// Decimal rendering of `v` without sign or leading zeros ("0" for zero).
pub open spec fn decimal(v: nat) -> Seq<char>
    decreases v,
{
    if v < 10 {
        seq![digit_char(v)]
    } else {
        decimal(v / 10).push(digit_char(v % 10))
    }
}

/// Decimal rendering of `v` left-padded with `'0'` to at least `width` characters.
pub open spec fn zero_padded(v: nat, width: nat) -> Seq<char> {
    let d = decimal(v);
    if d.len() < width {
        Seq::new((width - d.len()) as nat, |_i: int| '0') + d
    } else {
        d
    }
}

/// Lower-case hexadecimal digit character of `d` (0..=15).
pub open spec fn hex_lower_char(d: nat) -> char {
    if d < 10 {
        (48 + d) as char
    } else {
        (87 + d) as char
    }
}

pub proof fn lemma_decimal_len(v: nat)
    ensures
        decimal(v).len() >= 1,
        v < 10 <==> decimal(v).len() == 1,
    decreases v,
{
    if v >= 10 {
        lemma_decimal_len(v / 10);
    }
}

/// The one-character string literal of decimal digit `d`.
pub fn digit_str(d: u64) -> (s: &'static str)
    requires
        d < 10,
    ensures
        s@ == seq![digit_char(d as nat)],
{
    if d == 0 {
        proof { reveal_strlit("0"); }
        "0"
    } else if d == 1 {
        proof { reveal_strlit("1"); }
        "1"
    } else if d == 2 {
        proof { reveal_strlit("2"); }
        "2"
    } else if d == 3 {
        proof { reveal_strlit("3"); }
        "3"
    } else if d == 4 {
        proof { reveal_strlit("4"); }
        "4"
    } else if d == 5 {
        proof { reveal_strlit("5"); }
        "5"
    } else if d == 6 {
        proof { reveal_strlit("6"); }
        "6"
    } else if d == 7 {
        proof { reveal_strlit("7"); }
        "7"
    } else if d == 8 {
        proof { reveal_strlit("8"); }
        "8"
    } else {
        proof { reveal_strlit("9"); }
        "9"
    }
}

/// The one-character string literal of lower-case hexadecimal digit `d`.
pub fn hex_digit_str(d: u8) -> (s: &'static str)
    requires
        d < 16,
    ensures
        s@ == seq![hex_lower_char(d as nat)],
{
    if d < 10 {
        digit_str(d as u64)
    } else if d == 10 {
        proof { reveal_strlit("a"); }
        "a"
    } else if d == 11 {
        proof { reveal_strlit("b"); }
        "b"
    } else if d == 12 {
        proof { reveal_strlit("c"); }
        "c"
    } else if d == 13 {
        proof { reveal_strlit("d"); }
        "d"
    } else if d == 14 {
        proof { reveal_strlit("e"); }
        "e"
    } else {
        proof { reveal_strlit("f"); }
        "f"
    }
}

/// Append the decimal rendering of `v` to `s`.
pub fn push_decimal(s: &mut String, v: u64)
    ensures
        final(s)@ == old(s)@ + decimal(v as nat),
    decreases v,
{
    if v >= 10 {
        push_decimal(s, v / 10);
    }
    let ghost mid = s@;
    s.append(digit_str(v % 10));
    proof {
        if v >= 10 {
            assert(mid == old(s)@ + decimal((v / 10) as nat));
            assert(decimal(v as nat) == decimal((v / 10) as nat).push(digit_char((v % 10) as nat)));
            assert(s@ =~= old(s)@ + decimal(v as nat));
        } else {
            assert(s@ =~= old(s)@ + decimal(v as nat));
        }
    }
}

/// Number of decimal digits of `v`.
pub fn decimal_width(v: u64) -> (n: usize)
    ensures
        n == decimal(v as nat).len(),
        n <= 20,
    decreases v,
{
    proof {
        lemma_decimal_len(v as nat);
        lemma_u64_decimal_len(v);
    }
    if v < 10 {
        1
    } else {
        let w = decimal_width(v / 10);
        w + 1
    }
}

pub open spec fn pow10(k: nat) -> nat
    decreases k,
{
    if k == 0 {
        1
    } else {
        10 * pow10((k - 1) as nat)
    }
}

/// `decimal(v)` has at most `k` digits whenever `v < 10^k`.
pub proof fn lemma_decimal_len_pow_at(v: nat, k: nat)
    requires
        k > 0,
        v < pow10(k),
    ensures
        decimal(v).len() <= k,
    decreases v,
{
    lemma_decimal_len(v);
    if v >= 10 {
        assert(k >= 2) by {
            if k == 1 {
                assert(pow10(1) == 10 * pow10(0));
            }
        }
        assert(v / 10 < pow10((k - 1) as nat)) by {
            assert(pow10(k) == 10 * pow10((k - 1) as nat));
        }
        lemma_decimal_len_pow_at(v / 10, (k - 1) as nat);
    }
}

proof fn lemma_u64_decimal_len(v: u64)
    ensures
        decimal(v as nat).len() <= 20,
{
    reveal_with_fuel(pow10, 21);
    assert(pow10(20) == 100000000000000000000nat);
    lemma_decimal_len_pow_at(v as nat, 20);
}

/// Append `v` in decimal, left-padded with zeros to `width` characters.
pub fn push_zero_padded(s: &mut String, v: u64, width: usize)
    ensures
        final(s)@ == old(s)@ + zero_padded(v as nat, width as nat),
{
    let w = decimal_width(v);
    if w < width {
        let mut k: usize = 0;
        while k < width - w
            invariant
                k <= width - w,
                w < width,
                s@ == old(s)@ + Seq::new(k as nat, |_i: int| '0'),
            decreases width - w - k,
        {
            let ghost before = s@;
            proof { reveal_strlit("0"); }
            s.append("0");
            k = k + 1;
            assert(s@ =~= old(s)@ + Seq::new(k as nat, |_i: int| '0'));
        }
        let ghost pad = s@;
        push_decimal(s, v);
        assert(s@ =~= old(s)@ + zero_padded(v as nat, width as nat));
    } else {
        push_decimal(s, v);
    }
}

/// Lower-case hexadecimal rendering of `v` without leading zeros ("0" for zero).
pub open spec fn hex(v: nat) -> Seq<char>
    decreases v,
{
    if v < 16 {
        seq![hex_lower_char(v)]
    } else {
        hex(v / 16).push(hex_lower_char(v % 16))
    }
}

/// Hexadecimal rendering of `v` left-padded with `'0'` to at least `width` digits.
pub open spec fn hex_padded(v: nat, width: nat) -> Seq<char> {
    let d = hex(v);
    if d.len() < width {
        Seq::new((width - d.len()) as nat, |_i: int| '0') + d
    } else {
        d
    }
}

/// Append the lower-case hexadecimal rendering of `v` to `s`.
pub fn push_hex(s: &mut String, v: u64)
    ensures
        final(s)@ == old(s)@ + hex(v as nat),
    decreases v,
{
    if v >= 16 {
        push_hex(s, v / 16);
    }
    let ghost mid = s@;
    s.append(hex_digit_str((v % 16) as u8));
    proof {
        if v >= 16 {
            assert(hex(v as nat) == hex((v / 16) as nat).push(hex_lower_char((v % 16) as nat)));
        }
        assert(s@ =~= old(s)@ + hex(v as nat));
    }
}

/// Number of hexadecimal digits of `v`.
fn hex_width(v: u64) -> (n: usize)
    ensures
        n == hex(v as nat).len(),
        n <= 16,
    decreases v,
{
    proof {
        lemma_hex_len(v as nat);
    }
    if v < 16 {
        1
    } else {
        1 + hex_width(v / 16)
    }
}

proof fn lemma_hex_len(v: nat)
    ensures
        hex(v).len() >= 1,
        v < 0x1_0000_0000_0000_0000 ==> hex(v).len() <= 16,
    decreases v,
{
    if v >= 16 {
        lemma_hex_len(v / 16);
        if v < 0x1_0000_0000_0000_0000 {
            assert(v / 16 < 0x1000_0000_0000_0000);
            reveal_with_fuel(pow16, 16);
            assert(pow16(15) == 0x1000_0000_0000_0000);
            lemma_hex_len_bound(v / 16, 15);
        }
    }
}

proof fn lemma_hex_len_bound(v: nat, k: nat)
    requires
        k <= 15,
        v < pow16(k),
    ensures
        hex(v).len() <= k || (k == 0 && hex(v).len() == 1),
    decreases k,
{
    if v >= 16 && k > 0 {
        lemma_hex_len_bound(v / 16, (k - 1) as nat);
    }
}

/// 16 to the power `k`.
pub open spec fn pow16(k: nat) -> nat
    decreases k,
{
    if k == 0 {
        1
    } else {
        16 * pow16((k - 1) as nat)
    }
}

/// Append `v` in hexadecimal, left-padded with zeros to `width` digits.
pub fn push_hex_padded(s: &mut String, v: u64, width: usize)
    ensures
        final(s)@ == old(s)@ + hex_padded(v as nat, width as nat),
{
    let w = hex_width(v);
    if w < width {
        let mut k: usize = 0;
        while k < width - w
            invariant
                k <= width - w,
                w < width,
                s@ == old(s)@ + Seq::new(k as nat, |_i: int| '0'),
            decreases width - w - k,
        {
            proof { reveal_strlit("0"); }
            s.append("0");
            k = k + 1;
            assert(s@ =~= old(s)@ + Seq::new(k as nat, |_i: int| '0'));
        }
        push_hex(s, v);
        assert(s@ =~= old(s)@ + hex_padded(v as nat, width as nat));
    } else {
        push_hex(s, v);
    }
}

} // verus!
