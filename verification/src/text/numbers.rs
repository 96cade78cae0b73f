//! Decimal numbers: rendering, padding and parsing.

use vstd::prelude::*;
use vstd::utf8::encode_utf8;

use super::chars::{digit, is_digit};
use super::strings::{chars_of, push_char, push_spaces, spaces};

verus! {

/// The character of a digit.
pub open spec fn digit_char(d: nat) -> char {
    (('0' as nat) + d) as char
}

/// The value of a digit character.
pub open spec fn digit_value(c: char) -> nat {
    ((c as int) - ('0' as int)) as nat
}

/// `n` in decimal notation, without leading zeros.
pub open spec fn decimal(n: nat) -> Seq<char>
    decreases n,
{
    if n < 10 {
        seq![digit_char(n)]
    } else {
        decimal(n / 10).push(digit_char(n % 10))
    }
}

/// `n` in decimal notation, with a sign if it is negative.
pub open spec fn signed_decimal(n: int) -> Seq<char> {
    if n < 0 {
        "-"@ + decimal((-n) as nat)
    } else {
        decimal(n as nat)
    }
}

/// Every character is a digit.
pub open spec fn all_digits(s: Seq<char>) -> bool {
    forall|i: int| 0 <= i < s.len() ==> is_digit(#[trigger] s[i])
}

/// The number that a sequence of digits stands for.
pub open spec fn digits_value(s: Seq<char>) -> nat
    decreases s.len(),
{
    if s.len() == 0 {
        0
    } else {
        digits_value(s.drop_last()) * 10 + digit_value(s.last())
    }
}

/// `s` without one leading plus sign.
pub open spec fn without_plus(s: Seq<char>) -> Seq<char> {
    if s.len() > 0 && s[0] == '+' {
        s.skip(1)
    } else {
        s
    }
}

/// The number from 0 to `max` that `s` writes in decimal notation: at least one digit, with at
/// most one plus sign before them.
pub open spec fn unsigned_of(s: Seq<char>, max: nat) -> Option<nat> {
    let d = without_plus(s);
    if d.len() > 0 && all_digits(d) && digits_value(d) <= max {
        Some(digits_value(d))
    } else {
        None
    }
}

/// The number that `s` writes in decimal notation with an optional sign, if it fits in 32 bits.
pub open spec fn signed_of(s: Seq<char>) -> Option<int> {
    if s.len() > 0 && s[0] == '-' {
        let d = s.skip(1);
        if d.len() > 0 && all_digits(d) && digits_value(d) <= 0x8000_0000 {
            Some(-(digits_value(d) as int))
        } else {
            None
        }
    } else {
        match unsigned_of(s, 0x7fff_ffff) {
            Some(n) => Some(n as int),
            None => None,
        }
    }
}

/// `s` with spaces before it, up to `width` characters.
pub open spec fn padded_left(s: Seq<char>, width: nat) -> Seq<char> {
    if s.len() >= width {
        s
    } else {
        spaces((width - s.len()) as nat) + s
    }
}

/// `s` with spaces after it, up to `width` characters.
pub open spec fn padded_right(s: Seq<char>, width: nat) -> Seq<char> {
    if s.len() >= width {
        s
    } else {
        s + spaces((width - s.len()) as nat)
    }
}

/// The number of bytes that `s` takes in UTF-8.
pub open spec fn byte_len(s: Seq<char>) -> nat {
    encode_utf8(s).len()
}

/// The first digits of a number are worth no more than all of them.
pub proof fn digits_value_grows(s: Seq<char>, n: int)
    requires
        0 <= n <= s.len(),
    ensures
        digits_value(s.take(n)) <= digits_value(s),
    decreases s.len() - n,
{
    if n == s.len() {
        assert(s.take(n) =~= s);
    } else {
        digits_value_grows(s, n + 1);
        assert(s.take(n + 1).drop_last() =~= s.take(n));
    }
}

/// A number has at least one decimal digit.
pub proof fn decimal_not_empty(n: nat)
    ensures
        decimal(n).len() >= 1,
        all_digits(decimal(n)),
    decreases n,
{
    if n >= 10 {
        decimal_not_empty(n / 10);
    }
}

/// Reading back what was written gives the number.
pub proof fn decimal_reads_back(n: nat)
    ensures
        digits_value(decimal(n)) == n,
    decreases n,
{
    if n < 10 {
        let s = decimal(n);
        assert(s.drop_last() =~= Seq::<char>::empty());
        assert(digits_value(s.drop_last()) == 0);
    } else {
        decimal_reads_back(n / 10);
        assert(decimal(n).drop_last() =~= decimal(n / 10));
    }
}

fn char_of_digit(d: u64) -> (c: char)
    requires
        d < 10,
    ensures
        c == digit_char(d as nat),
{
    (48u8 + d as u8) as char
}

/// `n` in decimal notation.
pub fn u64_to_string(n: u64) -> (r: String)
    ensures
        r@ == decimal(n as nat),
    decreases n,
{
    if n < 10 {
        let mut out = String::new();
        push_char(&mut out, char_of_digit(n));
        assert(out@ =~= decimal(n as nat));
        out
    } else {
        let mut out = u64_to_string(n / 10);
        push_char(&mut out, char_of_digit(n % 10));
        out
    }
}

/// `n` in decimal notation, with a sign if it is negative.
pub fn i64_to_string(n: i64) -> (r: String)
    ensures
        r@ == signed_decimal(n as int),
{
    if n < 0 {
        let size: u64 = (-(n as i128)) as u64;
        let mut out = String::from_str("-");
        out.append(u64_to_string(size).as_str());
        out
    } else {
        u64_to_string(n as u64)
    }
}

/// Puts `s` at the end of `out`, with spaces before it, up to `width` characters.
pub fn push_padded_left(out: &mut String, s: &str, width: usize)
    ensures
        final(out)@ == old(out)@ + padded_left(s@, width as nat),
{
    let n = s.unicode_len();
    if n < width {
        push_spaces(out, width - n);
    }
    out.append(s);
    assert(out@ =~= old(out)@ + padded_left(s@, width as nat));
}

/// Puts `s` at the end of `out`, with spaces after it, up to `width` characters.
pub fn push_padded_right(out: &mut String, s: &str, width: usize)
    ensures
        final(out)@ == old(out)@ + padded_right(s@, width as nat),
{
    let n = s.unicode_len();
    out.append(s);
    if n < width {
        push_spaces(out, width - n);
    }
    assert(out@ =~= old(out)@ + padded_right(s@, width as nat));
}

/// The number of bytes that `s` takes in UTF-8.
pub fn byte_len_of(s: &str) -> (r: usize)
    ensures
        r == byte_len(s@),
{
    s.as_bytes().len()
}

fn value_of_digit(c: char) -> (d: u128)
    requires
        is_digit(c),
    ensures
        d == digit_value(c),
        d < 10,
{
    (c as u8 - 48) as u128
}

/// The value of the digits from `from` on, if they are digits, at least one, and worth at most
/// `max`.
pub fn parse_digits(v: &Vec<char>, from: usize, max: u128) -> (r: Option<u128>)
    requires
        from <= v@.len(),
    ensures
        ({
            let d = v@.skip(from as int);
            match r {
                Some(n) => d.len() > 0 && all_digits(d) && n == digits_value(d) && n <= max,
                None => !(d.len() > 0 && all_digits(d) && digits_value(d) <= max),
            }
        }),
{
    let ghost d = v@.skip(from as int);
    if from == v.len() {
        return None;
    }
    let mut acc: u128 = 0;
    let mut over: bool = false;
    let mut i: usize = from;
    assert(d.take(0) =~= Seq::<char>::empty());
    while i < v.len()
        invariant
            from <= i <= v@.len(),
            d == v@.skip(from as int),
            all_digits(d.take(i - from)),
            !over ==> acc == digits_value(d.take(i - from)) && acc <= max,
            over ==> digits_value(d.take(i - from)) > max,
        decreases v@.len() - i,
    {
        let c = v[i];
        let ghost k = (i - from) as int;
        assert(d[k] == c);
        if !digit(c) {
            assert(!all_digits(d));
            return None;
        }
        assert(d.take(k + 1).drop_last() =~= d.take(k));
        assert(d.take(k + 1).last() == c);
        assert forall|j: int| 0 <= j < d.take(k + 1).len() implies is_digit(
            #[trigger] d.take(k + 1)[j],
        ) by {
            if j < k {
                assert(d.take(k)[j] == d.take(k + 1)[j]);
            }
        }
        if !over {
            let x = value_of_digit(c);
            if acc > (max - if x <= max { x } else { max }) / 10 || x > max {
                over = true;
                assert(acc * 10 + x > max) by (nonlinear_arith)
                    requires
                        x <= max ==> acc > (max - x) / 10,
                        acc >= 0,
                        x >= 0,
                ;
            } else {
                assert(acc * 10 + x <= max) by (nonlinear_arith)
                    requires
                        x <= max,
                        acc <= (max - x) / 10,
                ;
                acc = acc * 10 + x;
            }
        }
        i += 1;
    }
    assert(d.take(d.len() as int) =~= d);
    if over {
        None
    } else {
        Some(acc)
    }
}

/// The `usize` that `s` writes in decimal notation.
pub fn parse_usize(s: &str) -> (r: Option<usize>)
    ensures
        match r {
            Some(n) => unsigned_of(s@, usize::MAX as nat) == Some(n as nat),
            None => unsigned_of(s@, usize::MAX as nat) is None,
        },
{
    let v = chars_of(s);
    let from: usize = if v.len() > 0 && v[0] == '+' {
        1
    } else {
        0
    };
    assert(v@.skip(from as int) =~= without_plus(s@));
    match parse_digits(&v, from, usize::MAX as u128) {
        Some(n) => Some(n as usize),
        None => None,
    }
}

/// The `i32` that `s` writes in decimal notation with an optional sign.
pub fn parse_i32(s: &str) -> (r: Option<i32>)
    ensures
        match r {
            Some(n) => signed_of(s@) == Some(n as int),
            None => signed_of(s@) is None,
        },
{
    let v = chars_of(s);
    if v.len() > 0 && v[0] == '-' {
        match parse_digits(&v, 1, 0x8000_0000) {
            Some(n) => Some((0 - (n as i64)) as i32),
            None => None,
        }
    } else {
        let from: usize = if v.len() > 0 && v[0] == '+' {
            1
        } else {
            0
        };
        assert(v@.skip(from as int) =~= without_plus(s@));
        match parse_digits(&v, from, 0x7fff_ffff) {
            Some(n) => Some(n as i32),
            None => None,
        }
    }
}

} // verus!
