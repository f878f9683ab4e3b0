//! Building command and markup text: decimal and hexadecimal renderings of
//! integers, appended to a `String`.
use vstd::prelude::*;
use crate::text::{
    all_digits, digit_value, digits_value, is_digit, is_white_space, leading_ws, parse_i32, trailing_ws, trim,
};

verus! {

/// The character for a digit value `0..16` (lower-case hexadecimal above 9).
pub open spec fn hex_char(d: int) -> char {
    if d == 0 { '0' }
    else if d == 1 { '1' }
    else if d == 2 { '2' }
    else if d == 3 { '3' }
    else if d == 4 { '4' }
    else if d == 5 { '5' }
    else if d == 6 { '6' }
    else if d == 7 { '7' }
    else if d == 8 { '8' }
    else if d == 9 { '9' }
    else if d == 10 { 'a' }
    else if d == 11 { 'b' }
    else if d == 12 { 'c' }
    else if d == 13 { 'd' }
    else if d == 14 { 'e' }
    else { 'f' }
}

/// Decimal rendering of a natural number, without leading zeros ("0" for zero).
pub open spec fn dec_digits(n: nat) -> Seq<char>
    decreases n,
{
    if n < 10 {
        seq![hex_char(n as int)]
    } else {
        dec_digits(n / 10).push(hex_char((n % 10) as int))
    }
}

/// Decimal rendering of an integer, with a leading '-' when it is negative.
pub open spec fn int_str(i: int) -> Seq<char> {
    if i < 0 {
        seq!['-'] + dec_digits((-i) as nat)
    } else {
        dec_digits(i as nat)
    }
}

/// Two lower-case hexadecimal digits of a byte.
pub open spec fn hex_byte(b: u8) -> Seq<char> {
    seq![hex_char(b as int / 16), hex_char(b as int % 16)]
}

/// The one-character string of a digit value.
pub fn digit_str(d: u64) -> (r: &'static str)
    requires
        d < 16,
    ensures
        r@ == seq![hex_char(d as int)],
{
    if d == 0 {
        proof { reveal_strlit("0"); }
        "0"
    } else if d == 1 {
        proof { reveal_strlit("1"); }
        "1"
    } else if d == 2 {
        proof { reveal_strlit("2"); }
        "2"
    } else if d == 3 {
        proof { reveal_strlit("3"); }
        "3"
    } else if d == 4 {
        proof { reveal_strlit("4"); }
        "4"
    } else if d == 5 {
        proof { reveal_strlit("5"); }
        "5"
    } else if d == 6 {
        proof { reveal_strlit("6"); }
        "6"
    } else if d == 7 {
        proof { reveal_strlit("7"); }
        "7"
    } else if d == 8 {
        proof { reveal_strlit("8"); }
        "8"
    } else if d == 9 {
        proof { reveal_strlit("9"); }
        "9"
    } else if d == 10 {
        proof { reveal_strlit("a"); }
        "a"
    } else if d == 11 {
        proof { reveal_strlit("b"); }
        "b"
    } else if d == 12 {
        proof { reveal_strlit("c"); }
        "c"
    } else if d == 13 {
        proof { reveal_strlit("d"); }
        "d"
    } else if d == 14 {
        proof { reveal_strlit("e"); }
        "e"
    } else {
        proof { reveal_strlit("f"); }
        "f"
    }
}

/// Appends the decimal rendering of `n`.
pub fn push_decimal(s: &mut String, n: u64)
    ensures
        final(s)@ == old(s)@ + dec_digits(n as nat),
    decreases n,
{
    if n >= 10 {
        push_decimal(s, n / 10);
    }
    s.append(digit_str(n % 10));
    proof {
        if n >= 10 {
            assert(dec_digits(n as nat) == dec_digits((n / 10) as nat).push(hex_char((n % 10) as int)));
        }
    }
}

/// Appends the decimal rendering of a signed integer.
pub fn push_signed(s: &mut String, n: i64)
    ensures
        final(s)@ == old(s)@ + int_str(n as int),
{
    if n < 0 {
        proof { reveal_strlit("-"); }
        s.append("-");
        let m: u64 = (0i128 - n as i128) as u64;
        push_decimal(s, m);
    } else {
        push_decimal(s, n as u64);
    }
}

/// Appends the two lower-case hexadecimal digits of a byte.
pub fn push_hex_byte(s: &mut String, b: u8)
    ensures
        final(s)@ == old(s)@ + hex_byte(b),
{
    s.append(digit_str((b / 16) as u64));
    s.append(digit_str((b % 16) as u64));
}


proof fn lemma_hex_char_digit(d: int)
    requires
        0 <= d < 10,
    ensures
        is_digit(hex_char(d)),
        digit_value(hex_char(d)) == d,
        !is_white_space(hex_char(d)),
        hex_char(d) != '-',
        hex_char(d) != '+',
        hex_char(d) != ',',
{
}

/// A decimal rendering is a non-empty string of digits whose value is the
/// number rendered.
pub proof fn lemma_dec_digits_value(n: nat)
    ensures
        dec_digits(n).len() > 0,
        all_digits(dec_digits(n)),
        digits_value(dec_digits(n)) == n,
        !dec_digits(n).contains(','),
        !is_white_space(dec_digits(n)[0]),
        !is_white_space(dec_digits(n).last()),
        dec_digits(n)[0] != '-',
        dec_digits(n)[0] != '+',
    decreases n,
{
    let s = dec_digits(n);
    if n < 10 {
        lemma_hex_char_digit(n as int);
        assert(s.drop_last().len() == 0);
        assert(digits_value(s.drop_last()) == 0);
        assert(s.last() == hex_char(n as int));
        assert(!s.contains(',')) by {
            if s.contains(',') {
                let k = choose|k: int| 0 <= k < s.len() && s[k] == ',';
                assert(k == 0);
            }
        }
    } else {
        let p = dec_digits(n / 10);
        lemma_dec_digits_value(n / 10);
        lemma_hex_char_digit((n % 10) as int);
        assert(s.drop_last() == p);
        assert(s.last() == hex_char((n % 10) as int));
        assert(digits_value(s) == 10 * digits_value(p) + digit_value(s.last()));
        assert(10 * (n / 10) + n % 10 == n);
        assert(s[0] == p[0]);
        assert forall|i: int| 0 <= i < s.len() implies is_digit(#[trigger] s[i]) by {
            if i < p.len() {
                assert(s[i] == p[i]);
            }
        }
        assert(!s.contains(',')) by {
            if s.contains(',') {
                let k = choose|k: int| 0 <= k < s.len() && s[k] == ',';
                if k < p.len() {
                    assert(p[k] == ',');
                    assert(p.contains(','));
                }
            }
        }
    }
}

/// Parsing an `i32`'s decimal rendering gives the number back, and the
/// rendering carries no surrounding whitespace.
pub proof fn lemma_parse_int_str(n: i32)
    ensures
        trim(int_str(n as int)) == int_str(n as int),
        parse_i32(int_str(n as int)) == Some(n),
        !int_str(n as int).contains(','),
        int_str(n as int).len() > 0,
        !is_white_space(int_str(n as int)[0]),
        !is_white_space(int_str(n as int).last()),
{
    let s = int_str(n as int);
    let m: nat = if n < 0 { (-n) as nat } else { n as nat };
    let d = dec_digits(m);
    lemma_dec_digits_value(m);
    if n < 0 {
        assert(s == seq!['-'] + d);
        assert(s.drop_first() == d);
        assert(s.last() == d.last());
        assert(!s.contains(',')) by {
            if s.contains(',') {
                let k = choose|k: int| 0 <= k < s.len() && s[k] == ',';
                assert(k > 0);
                assert(d[k - 1] == ',');
                assert(d.contains(','));
            }
        }
    }
    assert(s.len() > 0);
    assert(leading_ws(s) == 0);
    assert(trailing_ws(s) == 0);
    assert(s.skip(0) == s);
    assert(s.take(s.len() as int) == s);
}

} // verus!
