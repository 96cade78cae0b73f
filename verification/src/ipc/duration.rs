//! Spans of time as they are written: `1h30m`, `250ms`.

use vstd::prelude::*;

use crate::text::chars::{ascii_white, digit, is_ascii_white, is_digit, is_letter, letter};
use crate::text::numbers::{
    all_digits, decimal, decimal_not_empty, decimal_reads_back, digits_value, parse_digits,
};
use crate::text::strings::{
    cat, chars_of, lowered, str_eq, string_of, to_ascii_lower, trim, trimmed,
};

verus! {

/// Why a span of time cannot be read.
#[derive(Debug)]
pub enum DurationError {
    Missing,
    /// What stands where a number should.
    ExpectedNumber(String),
    InvalidNumber,
    MissingUnit,
    /// The unit that is not known.
    UnknownUnit(String),
    TooLarge,
}

/// What stands for a [`DurationError`] in contracts.
pub enum DurationErrorModel {
    Missing,
    ExpectedNumber(Seq<char>),
    InvalidNumber,
    MissingUnit,
    UnknownUnit(Seq<char>),
    TooLarge,
}

impl View for DurationError {
    type V = DurationErrorModel;

    open spec fn view(&self) -> DurationErrorModel {
        match self {
            DurationError::Missing => DurationErrorModel::Missing,
            DurationError::ExpectedNumber(s) => DurationErrorModel::ExpectedNumber(s@),
            DurationError::InvalidNumber => DurationErrorModel::InvalidNumber,
            DurationError::MissingUnit => DurationErrorModel::MissingUnit,
            DurationError::UnknownUnit(s) => DurationErrorModel::UnknownUnit(s@),
            DurationError::TooLarge => DurationErrorModel::TooLarge,
        }
    }
}

impl DurationErrorModel {
    pub open spec fn words(self) -> Seq<char> {
        match self {
            DurationErrorModel::Missing => "missing duration after 'for'"@,
            DurationErrorModel::ExpectedNumber(s) => "Duration format: expected number at '"@ + s
                + "'"@,
            DurationErrorModel::InvalidNumber => "Duration format: invalid number"@,
            DurationErrorModel::MissingUnit => "Duration format: missing unit (ms/s/m/h/d)"@,
            DurationErrorModel::UnknownUnit(u) => "Duration format: unknown unit '"@ + u
                + "' (ms/s/m/h/d)"@,
            DurationErrorModel::TooLarge => "Duration too large"@,
        }
    }
}

impl DurationError {
    /// The words that the user reads.
    pub fn message(&self) -> (r: String)
        ensures
            r@ == self@.words(),
    {
        match self {
            DurationError::Missing => String::from_str("missing duration after 'for'"),
            DurationError::ExpectedNumber(s) => {
                let head = cat("Duration format: expected number at '", s.as_str());
                cat(head.as_str(), "'")
            },
            DurationError::InvalidNumber => String::from_str("Duration format: invalid number"),
            DurationError::MissingUnit => String::from_str(
                "Duration format: missing unit (ms/s/m/h/d)",
            ),
            DurationError::UnknownUnit(u) => {
                let head = cat("Duration format: unknown unit '", u.as_str());
                cat(head.as_str(), "' (ms/s/m/h/d)")
            },
            DurationError::TooLarge => String::from_str("Duration too large"),
        }
    }
}

/// How much white space stands at the front.
pub open spec fn blank_run(s: Seq<char>) -> nat
    decreases s.len(),
{
    if s.len() > 0 && is_ascii_white(s[0]) {
        1 + blank_run(s.skip(1))
    } else {
        0
    }
}

/// How many digits stand at the front.
pub open spec fn digit_run(s: Seq<char>) -> nat
    decreases s.len(),
{
    if s.len() > 0 && is_digit(s[0]) {
        1 + digit_run(s.skip(1))
    } else {
        0
    }
}

/// How many letters stand at the front.
pub open spec fn letter_run(s: Seq<char>) -> nat
    decreases s.len(),
{
    if s.len() > 0 && is_letter(s[0]) {
        1 + letter_run(s.skip(1))
    } else {
        0
    }
}

/// A unit in milliseconds.
pub open spec fn unit_ms(unit: Seq<char>) -> Option<nat> {
    if unit == "ms"@ {
        Some(1)
    } else if unit == "s"@ {
        Some(1000)
    } else if unit == "m"@ {
        Some(60_000)
    } else if unit == "h"@ {
        Some(3_600_000)
    } else if unit == "d"@ {
        Some(86_400_000)
    } else {
        None
    }
}

/// The parts that stand at the front of `s`, each a number and a unit, added to `total`
/// milliseconds.
pub open spec fn added_parts(s: Seq<char>, total: nat) -> Result<nat, DurationErrorModel>
    decreases s.len(),
{
    let t = s.skip(blank_run(s) as int);
    let digits = digit_run(t) as int;
    let number = digits_value(t.take(digits));
    let after = t.skip(digits);
    let letters = letter_run(after) as int;
    let unit = lowered(after.take(letters));
    proof {
        runs_fit(s);
        runs_fit(t);
        runs_fit(after);
    }
    if t.len() == 0 {
        Ok(total)
    } else if digits == 0 {
        Err(DurationErrorModel::ExpectedNumber(t))
    } else if number > u128::MAX {
        Err(DurationErrorModel::InvalidNumber)
    } else if letters == 0 {
        Err(DurationErrorModel::MissingUnit)
    } else {
        match unit_ms(unit) {
            None => Err(DurationErrorModel::UnknownUnit(unit)),
            Some(f) => if total + number * f > u128::MAX {
                Err(DurationErrorModel::TooLarge)
            } else {
                added_parts(after.skip(letters), total + number * f)
            },
        }
    }
}

/// A span of time in milliseconds: a sequence of numbers and units.
pub open spec fn duration_ms(text: Seq<char>) -> Result<nat, DurationErrorModel> {
    let s = trimmed(text);
    if s.len() == 0 {
        Err(DurationErrorModel::Missing)
    } else {
        match added_parts(s, 0) {
            Ok(total) => if total > u64::MAX {
                Err(DurationErrorModel::TooLarge)
            } else {
                Ok(total)
            },
            Err(e) => Err(e),
        }
    }
}

pub proof fn runs_fit(s: Seq<char>)
    ensures
        blank_run(s) <= s.len(),
        digit_run(s) <= s.len(),
        letter_run(s) <= s.len(),
        all_digits(s.take(digit_run(s) as int)),
    decreases s.len(),
{
    if s.len() > 0 {
        runs_fit(s.skip(1));
        if is_digit(s[0]) {
            let n = digit_run(s) as int;
            assert forall|i: int| 0 <= i < n implies is_digit(#[trigger] s.take(n)[i]) by {
                if i > 0 {
                    assert(s.take(n)[i] == s.skip(1).take(n - 1)[i - 1]);
                }
            }
        }
    }
}

fn count_blanks(v: &Vec<char>, from: usize) -> (r: usize)
    requires
        from <= v.len(),
    ensures
        r == blank_run(v@.skip(from as int)),
        from + r <= v.len(),
{
    let ghost whole = blank_run(v@.skip(from as int));
    let mut i: usize = from;
    while i < v.len() && ascii_white(v[i])
        invariant
            from <= i <= v.len(),
            whole == (i - from) + blank_run(v@.skip(i as int)),
        decreases v.len() - i,
    {
        assert(v@.skip(i as int)[0] == v@[i as int]);
        assert(v@.skip(i as int).skip(1) =~= v@.skip(i + 1));
        i += 1;
    }
    proof {
        if i < v.len() {
            assert(v@.skip(i as int)[0] == v@[i as int]);
        }
    }
    i - from
}

fn count_digits(v: &Vec<char>, from: usize) -> (r: usize)
    requires
        from <= v.len(),
    ensures
        r == digit_run(v@.skip(from as int)),
        from + r <= v.len(),
{
    let ghost whole = digit_run(v@.skip(from as int));
    let mut i: usize = from;
    while i < v.len() && digit(v[i])
        invariant
            from <= i <= v.len(),
            whole == (i - from) + digit_run(v@.skip(i as int)),
        decreases v.len() - i,
    {
        assert(v@.skip(i as int)[0] == v@[i as int]);
        assert(v@.skip(i as int).skip(1) =~= v@.skip(i + 1));
        i += 1;
    }
    proof {
        if i < v.len() {
            assert(v@.skip(i as int)[0] == v@[i as int]);
        }
    }
    i - from
}

fn count_letters(v: &Vec<char>, from: usize) -> (r: usize)
    requires
        from <= v.len(),
    ensures
        r == letter_run(v@.skip(from as int)),
        from + r <= v.len(),
{
    let ghost whole = letter_run(v@.skip(from as int));
    let mut i: usize = from;
    while i < v.len() && letter(v[i])
        invariant
            from <= i <= v.len(),
            whole == (i - from) + letter_run(v@.skip(i as int)),
        decreases v.len() - i,
    {
        assert(v@.skip(i as int)[0] == v@[i as int]);
        assert(v@.skip(i as int).skip(1) =~= v@.skip(i + 1));
        i += 1;
    }
    proof {
        if i < v.len() {
            assert(v@.skip(i as int)[0] == v@[i as int]);
        }
    }
    i - from
}

fn unit_factor(unit: &str) -> (r: Option<u128>)
    ensures
        match r {
            Some(f) => unit_ms(unit@) == Some(f as nat),
            None => unit_ms(unit@) is None,
        },
{
    if str_eq(unit, "ms") {
        Some(1)
    } else if str_eq(unit, "s") {
        Some(1000)
    } else if str_eq(unit, "m") {
        Some(60_000)
    } else if str_eq(unit, "h") {
        Some(3_600_000)
    } else if str_eq(unit, "d") {
        Some(86_400_000)
    } else {
        None
    }
}

/// `total + n * factor`, if it can be written down.
fn add_part(total: u128, n: u128, factor: u128) -> (r: Option<u128>)
    ensures
        match r {
            Some(t) => t == total + n * factor,
            None => total + n * factor > u128::MAX,
        },
{
    match n.checked_mul(factor) {
        None => None,
        Some(ms) => total.checked_add(ms),
    }
}

/// What stands for the result of [`parse_duration`] in contracts.
pub open spec fn duration_view(r: Result<u64, DurationError>) -> Result<nat, DurationErrorModel> {
    match r {
        Ok(ms) => Ok(ms as nat),
        Err(e) => Err(e@),
    }
}

/// A span of time in milliseconds. A span that cannot be written down is too large, however the
/// numbers in it come to it.
pub fn parse_duration(text: &str) -> (r: Result<u64, DurationError>)
    ensures
        duration_view(r) == duration_ms(text@),
{
    let s = trim(text);
    let v = chars_of(s.as_str());
    if v.len() == 0 {
        return Err(DurationError::Missing);
    }
    let ghost whole = added_parts(s@, 0);
    let mut i: usize = 0;
    let mut total: u128 = 0;
    assert(v@.skip(0) =~= s@);
    while i < v.len()
        invariant
            v@ == trimmed(text@),
            v.len() > 0,
            i <= v.len(),
            whole == added_parts(trimmed(text@), 0),
            whole == added_parts(v@.skip(i as int), total as nat),
        decreases v.len() - i,
    {
        let ghost here = v@.skip(i as int);
        let blanks = count_blanks(&v, i);
        let start = i + blanks;
        let ghost t = here.skip(blank_run(here) as int);
        assert(t =~= v@.skip(start as int));
        if start >= v.len() {
            assert(whole == Ok::<nat, DurationErrorModel>(total as nat));
            i = v.len();
            assert(v@.skip(i as int) =~= Seq::<char>::empty());
            assert(added_parts(v@.skip(i as int), total as nat) == Ok::<nat, DurationErrorModel>(
                total as nat,
            )) by {
                let e = v@.skip(i as int);
                assert(e.skip(blank_run(e) as int) =~= Seq::<char>::empty());
            }
        } else {
            let digits = count_digits(&v, start);
            if digits == 0 {
                assert(v@.subrange(start as int, v@.len() as int) =~= t);
                return Err(DurationError::ExpectedNumber(string_of(&v, start, v.len())));
            }
            let unit_at = start + digits;
            let number = string_of(&v, start, unit_at);
            let nv = chars_of(number.as_str());
            assert(number@ =~= t.take(digits as int));
            proof {
                runs_fit(t);
                assert(nv@.skip(0) =~= nv@);
            }
            let n = match parse_digits(&nv, 0, u128::MAX) {
                None => {
                    return Err(DurationError::InvalidNumber);
                },
                Some(n) => n,
            };
            let letters = count_letters(&v, unit_at);
            let ghost after = t.skip(digits as int);
            assert(after =~= v@.skip(unit_at as int));
            if letters == 0 {
                return Err(DurationError::MissingUnit);
            }
            let next = unit_at + letters;
            let word = string_of(&v, unit_at, next);
            assert(word@ =~= after.take(letters as int));
            let unit = to_ascii_lower(word.as_str());
            match unit_factor(unit.as_str()) {
                None => {
                    return Err(DurationError::UnknownUnit(unit));
                },
                Some(f) => match add_part(total, n, f) {
                    None => {
                        return Err(DurationError::TooLarge);
                    },
                    Some(sum) => {
                        assert(after.skip(letters as int) =~= v@.skip(next as int));
                        total = sum;
                        i = next;
                    },
                },
            }
        }
    }
    assert(v@.skip(i as int) =~= Seq::<char>::empty());
    proof {
        let e = v@.skip(i as int);
        assert(e.skip(blank_run(e) as int) =~= Seq::<char>::empty());
    }
    if total > u64::MAX as u128 {
        Err(DurationError::TooLarge)
    } else {
        Ok(total as u64)
    }
}

// ---------------------------------------------------------------------------------------------
// Laws
// ---------------------------------------------------------------------------------------------

proof fn digits_run_on(d: Seq<char>, rest: Seq<char>)
    requires
        all_digits(d),
        rest.len() > 0,
        !is_digit(rest[0]),
    ensures
        digit_run(d + rest) == d.len(),
    decreases d.len(),
{
    if d.len() == 0 {
        assert(d + rest =~= rest);
    } else {
        assert((d + rest).skip(1) =~= d.skip(1) + rest);
        assert forall|i: int| 0 <= i < d.skip(1).len() implies is_digit(
            #[trigger] d.skip(1)[i],
        ) by {
            assert(d.skip(1)[i] == d[i + 1]);
        }
        digits_run_on(d.skip(1), rest);
        assert(is_digit(d[0]));
    }
}

proof fn letters_run_on(u: Seq<char>, rest: Seq<char>)
    requires
        forall|i: int| 0 <= i < u.len() ==> is_letter(#[trigger] u[i]),
        rest.len() > 0 ==> !is_letter(rest[0]),
    ensures
        letter_run(u + rest) == u.len(),
    decreases u.len(),
{
    if u.len() == 0 {
        assert(u + rest =~= rest);
    } else {
        assert((u + rest).skip(1) =~= u.skip(1) + rest);
        assert forall|i: int| 0 <= i < u.skip(1).len() implies is_letter(
            #[trigger] u.skip(1)[i],
        ) by {
            assert(u.skip(1)[i] == u[i + 1]);
        }
        letters_run_on(u.skip(1), rest);
        assert(is_letter(u[0]));
    }
}

proof fn units_are_words(unit: Seq<char>)
    requires
        unit_ms(unit) is Some,
    ensures
        unit.len() > 0,
        forall|i: int| 0 <= i < unit.len() ==> is_letter(#[trigger] unit[i]),
        lowered(unit) == unit,
{
    reveal_strlit("ms");
    reveal_strlit("s");
    reveal_strlit("m");
    reveal_strlit("h");
    reveal_strlit("d");
    assert(lowered(unit) =~= unit);
}

/// A number that is written out, a unit and what follows them are read as that many units and the
/// rest: the parts of a span add up.
pub proof fn written_parts_add_up(n: nat, unit: Seq<char>, rest: Seq<char>, total: nat)
    requires
        n <= u128::MAX,
        unit_ms(unit) is Some,
        rest.len() > 0 ==> !is_letter(rest[0]),
        total + n * unit_ms(unit)->0 <= u128::MAX,
    ensures
        added_parts(decimal(n) + unit + rest, total) == added_parts(
            rest,
            (total + n * unit_ms(unit)->0) as nat,
        ),
{
    let d = decimal(n);
    let s = d + unit + rest;
    let f = unit_ms(unit)->0;
    decimal_not_empty(n);
    decimal_reads_back(n);
    units_are_words(unit);
    let tail = unit + rest;
    assert(s =~= d + tail);
    assert(is_letter(unit[0]) && tail[0] == unit[0]);
    assert(is_digit(d[0]) && s[0] == d[0]);
    assert(blank_run(s) == 0);
    assert(s.skip(0) =~= s);
    digits_run_on(d, tail);
    assert(s.take(d.len() as int) =~= d);
    assert(s.skip(d.len() as int) =~= tail);
    letters_run_on(unit, rest);
    assert(tail.take(unit.len() as int) =~= unit);
    assert(tail.skip(unit.len() as int) =~= rest);
}

} // verus!
