//! Numbers as text: decimal bytes, signed and unsigned, and hexadecimal
//! digits.
//!
//! Decimal text is read the way Rust reads an integer from a string: an
//! optional sign (`+`, and `-` for a signed number), then one or more digits,
//! the value within the range of the type.

use crate::text::{solid, whitespace};
use vstd::prelude::*;
use vstd::slice::slice_subrange;
use vstd::string::StringExecFns;

verus! {

/// A decimal digit, `0` to `9`.
pub open spec fn digit(c: char) -> bool {
    0x30 <= c as u32 <= 0x39
}

/// What a decimal digit counts for.
pub open spec fn digit_value(c: char) -> int {
    c as u32 - 0x30
}

/// A hexadecimal digit, in either case.
pub open spec fn hex_digit(c: char) -> bool {
    ||| 0x30 <= c as u32 <= 0x39
    ||| 0x41 <= c as u32 <= 0x46
    ||| 0x61 <= c as u32 <= 0x66
}

/// What a hexadecimal digit counts for.
pub open spec fn hex_digit_value(c: char) -> int {
    if c as u32 <= 0x39 {
        c as u32 - 0x30
    } else if c as u32 <= 0x46 {
        c as u32 - 0x41 + 10
    } else {
        c as u32 - 0x61 + 10
    }
}

/// The decimal digit that stands for `d`, for `d` from 0 to 9.
pub open spec fn digit_char(d: int) -> char {
    if d == 0 {
        '0'
    } else if d == 1 {
        '1'
    } else if d == 2 {
        '2'
    } else if d == 3 {
        '3'
    } else if d == 4 {
        '4'
    } else if d == 5 {
        '5'
    } else if d == 6 {
        '6'
    } else if d == 7 {
        '7'
    } else if d == 8 {
        '8'
    } else {
        '9'
    }
}

/// The upper-case hexadecimal digit that stands for `d`, for `d` from 0 to 15.
pub open spec fn upper_hex_char(d: int) -> char {
    if d < 10 {
        digit_char(d)
    } else if d == 10 {
        'A'
    } else if d == 11 {
        'B'
    } else if d == 12 {
        'C'
    } else if d == 13 {
        'D'
    } else if d == 14 {
        'E'
    } else {
        'F'
    }
}

/// Every character of `s` is a decimal digit.
pub open spec fn all_digits(s: Seq<char>) -> bool {
    forall|i: int| 0 <= i < s.len() ==> digit(#[trigger] s[i])
}

/// The number that a run of decimal digits stands for.
pub open spec fn digits_value(s: Seq<char>) -> int
    decreases s.len(),
{
    if s.len() == 0 {
        0
    } else {
        10 * digits_value(s.drop_last()) + digit_value(s.last())
    }
}

/// The number that `s` stands for, where `s` is one digit or more and the
/// number is at most `limit`.
pub open spec fn magnitude(s: Seq<char>, limit: int) -> Option<int> {
    if s.len() > 0 && all_digits(s) && digits_value(s) <= limit {
        Some(digits_value(s))
    } else {
        None
    }
}

/// The unsigned byte that `s` stands for in decimal, if it stands for one:
/// an optional `+`, then digits, the value at most 255.
pub open spec fn decimal_u8(s: Seq<char>) -> Option<u8> {
    let body: Seq<char> = if s.len() > 0 && s[0] == '+' {
        s.drop_first()
    } else {
        s
    };
    match magnitude(body, 255) {
        Some(v) => Some(v as u8),
        None => None,
    }
}

/// The signed byte that `s` stands for in decimal, if it stands for one: an
/// optional `+` or `-`, then digits, the value from -128 to 127.
pub open spec fn decimal_i8(s: Seq<char>) -> Option<i8> {
    if s.len() > 0 && s[0] == '-' {
        match magnitude(s.drop_first(), 128) {
            Some(v) => Some((-v) as i8),
            None => None,
        }
    } else {
        let body: Seq<char> = if s.len() > 0 && s[0] == '+' {
            s.drop_first()
        } else {
            s
        };
        match magnitude(body, 127) {
            Some(v) => Some(v as i8),
            None => None,
        }
    }
}

/// `n` in decimal, without a sign or leading zeros.
pub open spec fn decimal(n: nat) -> Seq<char>
    decreases n,
{
    if n < 10 {
        seq![digit_char(n as int)]
    } else {
        decimal(n / 10).push(digit_char((n % 10) as int))
    }
}

/// `v` in decimal.
pub open spec fn u8_text(v: u8) -> Seq<char> {
    decimal(v as nat)
}

/// `v` in decimal, with a `-` in front of a negative number.
pub open spec fn i8_text(v: i8) -> Seq<char> {
    if v < 0 {
        seq!['-'] + decimal((-v) as nat)
    } else {
        decimal(v as nat)
    }
}

/// `v` as two upper-case hexadecimal digits.
pub open spec fn hex_byte_text(v: u8) -> Seq<char> {
    seq![upper_hex_char(v as int / 16), upper_hex_char(v as int % 16)]
}

/// The byte that the two hexadecimal digits `high` and `low` stand for.
pub open spec fn hex_pair_value(high: char, low: char) -> int {
    16 * hex_digit_value(high) + hex_digit_value(low)
}

/// Reads a run of digits that stands for a number up to `limit`.
fn parse_magnitude(s: &[char], limit: u32) -> (r: Option<u32>)
    requires
        limit <= 1000,
    ensures
        match r {
            Some(v) => magnitude(s@, limit as int) == Some(v as int),
            None => magnitude(s@, limit as int) is None,
        },
{
    let n: usize = s.len();
    if n == 0 {
        return None;
    }
    let mut acc: u32 = 0;
    let mut i: usize = 0;
    assert(s@.take(0) =~= Seq::<char>::empty());
    while i < n
        invariant
            n == s.len(),
            i <= n,
            limit <= 1000,
            acc <= limit,
            all_digits(s@.take(i as int)),
            acc == digits_value(s@.take(i as int)),
        decreases n - i,
    {
        let c: char = s[i];
        let u: u32 = c as u32;
        if u < 0x30 || u > 0x39 {
            assert(!digit(s@[i as int]));
            return None;
        }
        let ghost longer: Seq<char> = s@.take(i + 1);
        proof {
            assert(longer.drop_last() =~= s@.take(i as int));
            assert(longer.last() == c);
            assert forall|k: int| 0 <= k < longer.len() implies digit(#[trigger] longer[k]) by {
                if k < i {
                    assert(longer[k] == s@.take(i as int)[k]);
                }
            }
        }
        let next: u32 = acc * 10 + (u - 0x30);
        if next > limit {
            proof {
                if all_digits(s@) {
                    lemma_digits_value_grows(s@, i + 1);
                }
            }
            return None;
        }
        acc = next;
        i = i + 1;
    }
    assert(s@.take(n as int) =~= s@);
    Some(acc)
}

/// Reads an unsigned byte in decimal.
pub fn parse_u8(s: &[char]) -> (r: Option<u8>)
    ensures
        r == decimal_u8(s@),
{
    let n: usize = s.len();
    let body: &[char] = if n > 0 && s[0] == '+' {
        slice_subrange(s, 1, n)
    } else {
        assert(s@.subrange(0, n as int) =~= s@);
        slice_subrange(s, 0, n)
    };
    match parse_magnitude(body, 255) {
        Some(v) => Some(v as u8),
        None => None,
    }
}

/// Reads a signed byte in decimal.
pub fn parse_i8(s: &[char]) -> (r: Option<i8>)
    ensures
        r == decimal_i8(s@),
{
    let n: usize = s.len();
    if n > 0 && s[0] == '-' {
        match parse_magnitude(slice_subrange(s, 1, n), 128) {
            Some(v) => {
                let w: i32 = 0 - (v as i32);
                Some(w as i8)
            },
            None => None,
        }
    } else {
        let body: &[char] = if n > 0 && s[0] == '+' {
            slice_subrange(s, 1, n)
        } else {
            assert(s@.subrange(0, n as int) =~= s@);
            slice_subrange(s, 0, n)
        };
        match parse_magnitude(body, 127) {
            Some(v) => Some(v as i8),
            None => None,
        }
    }
}

/// The digit that stands for `d`, as a string of one character.
fn digit_str(d: u8) -> (r: &'static str)
    requires
        d < 10,
    ensures
        r@ == seq![digit_char(d as int)],
{
    proof {
        reveal_strlit("0");
        reveal_strlit("1");
        reveal_strlit("2");
        reveal_strlit("3");
        reveal_strlit("4");
        reveal_strlit("5");
        reveal_strlit("6");
        reveal_strlit("7");
        reveal_strlit("8");
        reveal_strlit("9");
    }
    let r: &'static str = match d {
        0 => "0",
        1 => "1",
        2 => "2",
        3 => "3",
        4 => "4",
        5 => "5",
        6 => "6",
        7 => "7",
        8 => "8",
        _ => "9",
    };
    assert(r@ =~= seq![digit_char(d as int)]);
    r
}

/// The upper-case hexadecimal digit that stands for `d`, as a string of one
/// character.
fn upper_hex_str(d: u8) -> (r: &'static str)
    requires
        d < 16,
    ensures
        r@ == seq![upper_hex_char(d as int)],
{
    if d < 10 {
        return digit_str(d);
    }
    proof {
        reveal_strlit("A");
        reveal_strlit("B");
        reveal_strlit("C");
        reveal_strlit("D");
        reveal_strlit("E");
        reveal_strlit("F");
    }
    let r: &'static str = match d {
        10 => "A",
        11 => "B",
        12 => "C",
        13 => "D",
        14 => "E",
        _ => "F",
    };
    assert(r@ =~= seq![upper_hex_char(d as int)]);
    r
}

/// Writes a number up to 255 in decimal at the end of `out`.
fn push_decimal(out: &mut String, n: u8)
    ensures
        final(out)@ == old(out)@ + decimal(n as nat),
{
    reveal_with_fuel(decimal, 3);
    if n >= 100 {
        out.append(digit_str(n / 100));
        out.append(digit_str((n / 10) % 10));
        out.append(digit_str(n % 10));
        assert(decimal(n as nat) =~= seq![
            digit_char(n as int / 100),
            digit_char((n as int / 10) % 10),
            digit_char(n as int % 10),
        ]);
        assert(out@ =~= old(out)@ + decimal(n as nat));
    } else if n >= 10 {
        out.append(digit_str(n / 10));
        out.append(digit_str(n % 10));
        assert(decimal(n as nat) =~= seq![digit_char(n as int / 10), digit_char(n as int % 10)]);
        assert(out@ =~= old(out)@ + decimal(n as nat));
    } else {
        out.append(digit_str(n));
    }
}

/// Writes `v` in decimal at the end of `out`.
pub fn push_u8(out: &mut String, v: u8)
    ensures
        final(out)@ == old(out)@ + u8_text(v),
{
    push_decimal(out, v);
}

/// Writes `v` in decimal at the end of `out`, a negative number with a `-`
/// in front.
pub fn push_i8(out: &mut String, v: i8)
    ensures
        final(out)@ == old(out)@ + i8_text(v),
{
    if v < 0 {
        proof {
            reveal_strlit("-");
        }
        out.append("-");
        let m: i16 = 0 - (v as i16);
        push_decimal(out, m as u8);
        assert(out@ =~= old(out)@ + i8_text(v));
    } else {
        push_decimal(out, v as u8);
    }
}

/// Writes `v` as two upper-case hexadecimal digits at the end of `out`.
pub fn push_hex_byte(out: &mut String, v: u8)
    ensures
        final(out)@ == old(out)@ + hex_byte_text(v),
{
    out.append(upper_hex_str(v / 16));
    out.append(upper_hex_str(v % 16));
    assert(out@ =~= old(out)@ + hex_byte_text(v));
}

/// What the hexadecimal digit `c` counts for, if it is one.
pub fn parse_hex_digit(c: char) -> (r: Option<u8>)
    ensures
        r is Some == hex_digit(c),
        r matches Some(v) ==> v == hex_digit_value(c),
{
    let u: u32 = c as u32;
    if 0x30 <= u && u <= 0x39 {
        Some((u - 0x30) as u8)
    } else if 0x41 <= u && u <= 0x46 {
        Some((u - 0x41 + 10) as u8)
    } else if 0x61 <= u && u <= 0x66 {
        Some((u - 0x61 + 10) as u8)
    } else {
        None
    }
}

/// What two hexadecimal digits stand for together, if both are digits.
pub fn parse_hex_pair(high: char, low: char) -> (r: Option<u8>)
    ensures
        r is Some == (hex_digit(high) && hex_digit(low)),
        r matches Some(v) ==> v == hex_pair_value(high, low),
{
    match parse_hex_digit(high) {
        None => None,
        Some(h) => match parse_hex_digit(low) {
            None => None,
            Some(l) => Some(h * 16 + l),
        },
    }
}

/// A longer run of digits stands for no smaller a number than its start does.
pub proof fn lemma_digits_value_grows(s: Seq<char>, k: int)
    requires
        all_digits(s),
        0 <= k <= s.len(),
    ensures
        0 <= digits_value(s.take(k)) <= digits_value(s),
    decreases s.len() - k,
{
    if k == s.len() {
        assert(s.take(k) =~= s);
        lemma_digits_value_nonnegative(s);
    } else {
        lemma_digits_value_grows(s, k + 1);
        let longer: Seq<char> = s.take(k + 1);
        assert(longer.drop_last() =~= s.take(k));
        assert(longer.last() == s[k]);
        assert(digit(s[k]));
        lemma_digits_value_nonnegative(s.take(k));
    }
}

/// A run of digits stands for a number that is not negative.
pub proof fn lemma_digits_value_nonnegative(s: Seq<char>)
    requires
        all_digits(s),
    ensures
        0 <= digits_value(s),
    decreases s.len(),
{
    if s.len() > 0 {
        assert(digit(s.last()));
        assert forall|i: int| 0 <= i < s.drop_last().len() implies digit(
            #[trigger] s.drop_last()[i],
        ) by {
            assert(s.drop_last()[i] == s[i]);
        }
        lemma_digits_value_nonnegative(s.drop_last());
    }
}

/// What `decimal` writes is read back as the same number: it is made of
/// digits only, one at least, and they stand for `n`.
pub proof fn lemma_decimal_reads_back(n: nat)
    ensures
        decimal(n).len() > 0,
        all_digits(decimal(n)),
        digits_value(decimal(n)) == n,
    decreases n,
{
    if n < 10 {
        let s: Seq<char> = decimal(n);
        assert(s.len() == 1);
        assert(s[0] == digit_char(n as int));
        assert(s.last() == s[0]);
        assert(s.drop_last().len() == 0);
        assert(digits_value(s.drop_last()) == 0);
        assert(digits_value(s) == 10 * digits_value(s.drop_last()) + digit_value(s.last()));
    } else {
        lemma_decimal_reads_back(n / 10);
        let front: Seq<char> = decimal(n / 10);
        let c: char = digit_char((n % 10) as int);
        let s: Seq<char> = front.push(c);
        assert(s == decimal(n));
        assert(s.drop_last() =~= front);
        assert(s.last() == c);
        assert(digit(c) && digit_value(c) == n % 10);
        assert forall|i: int| 0 <= i < s.len() implies digit(#[trigger] s[i]) by {
            if i < front.len() {
                assert(s[i] == front[i]);
            }
        }
    }
}

/// The two hexadecimal digits written for a byte stand for that byte.
pub proof fn lemma_hex_byte_reads_back(v: u8)
    ensures
        hex_digit(hex_byte_text(v)[0]),
        hex_digit(hex_byte_text(v)[1]),
        hex_pair_value(hex_byte_text(v)[0], hex_byte_text(v)[1]) == v,
{
    let h: int = v as int / 16;
    let l: int = v as int % 16;
    assert(0 <= h < 16 && 0 <= l < 16);
    lemma_upper_hex_char(h);
    lemma_upper_hex_char(l);
}

/// An upper-case hexadecimal digit counts for the number it was written for.
pub proof fn lemma_upper_hex_char(d: int)
    requires
        0 <= d < 16,
    ensures
        hex_digit(upper_hex_char(d)),
        hex_digit_value(upper_hex_char(d)) == d,
{
}

/// A byte written in decimal is read back as that byte.
pub proof fn lemma_u8_text_reads_back(v: u8)
    ensures
        decimal_u8(u8_text(v)) == Some(v),
{
    lemma_decimal_reads_back(v as nat);
    assert(digit(u8_text(v)[0]));
}

/// A signed byte written in decimal is read back as that byte.
pub proof fn lemma_i8_text_reads_back(v: i8)
    ensures
        decimal_i8(i8_text(v)) == Some(v),
{
    if v < 0 {
        let m: nat = (-v) as nat;
        lemma_decimal_reads_back(m);
        assert(i8_text(v)[0] == '-');
        assert(i8_text(v).drop_first() =~= decimal(m));
    } else {
        lemma_decimal_reads_back(v as nat);
        assert(digit(i8_text(v)[0]));
    }
}

/// A byte written in decimal is one word: it is not empty and holds no
/// white space.
pub proof fn lemma_u8_text_is_a_word(v: u8)
    ensures
        u8_text(v).len() > 0,
        solid(u8_text(v)),
{
    lemma_decimal_reads_back(v as nat);
    assert forall|i: int| 0 <= i < u8_text(v).len() implies !whitespace(
        #[trigger] u8_text(v)[i],
    ) by {
        assert(digit(u8_text(v)[i]));
    }
}

/// A signed byte written in decimal is one word.
pub proof fn lemma_i8_text_is_a_word(v: i8)
    ensures
        i8_text(v).len() > 0,
        solid(i8_text(v)),
{
    let m: nat = if v < 0 {
        (-v) as nat
    } else {
        v as nat
    };
    lemma_decimal_reads_back(m);
    assert forall|i: int| 0 <= i < i8_text(v).len() implies !whitespace(
        #[trigger] i8_text(v)[i],
    ) by {
        if v < 0 {
            if i > 0 {
                assert(i8_text(v)[i] == decimal(m)[i - 1]);
                assert(digit(decimal(m)[i - 1]));
            }
        } else {
            assert(digit(decimal(m)[i]));
        }
    }
}

} // verus!
