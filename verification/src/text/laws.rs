//! Laws on text and on numbers in it.

use vstd::prelude::*;

use super::chars::{is_white, lower};
use super::numbers::{
    decimal, decimal_not_empty, decimal_reads_back, padded_left, padded_right, signed_decimal,
    signed_of, unsigned_of,
};
use super::split::{fields_of, lines_of, only, pieces, pieces_not_empty};
use super::strings::{
    joined, lowered, stripped_end, stripped_start, trimmed, trimmed_end, trimmed_start,
    with_char_replaced,
};
use crate::time::{in_ms, later, since};

verus! {

// ---------------------------------------------------------------------------------------------
// Trimming
// ---------------------------------------------------------------------------------------------

proof fn start_is_trimmed(before: Seq<char>, rest: Seq<char>)
    requires
        forall|i: int| 0 <= i < before.len() ==> is_white(#[trigger] before[i]),
        rest.len() > 0 ==> !is_white(rest[0]),
    ensures
        trimmed_start(before + rest) == rest,
    decreases before.len(),
{
    let all = before + rest;
    if before.len() == 0 {
        assert(all =~= rest);
    } else {
        assert(all[0] == before[0]);
        let less = before.skip(1);
        assert forall|i: int| 0 <= i < less.len() implies is_white(#[trigger] less[i]) by {
            assert(less[i] == before[i + 1]);
        }
        start_is_trimmed(less, rest);
        assert(all.skip(1) =~= less + rest);
    }
}

proof fn end_is_trimmed(rest: Seq<char>, behind: Seq<char>)
    requires
        forall|i: int| 0 <= i < behind.len() ==> is_white(#[trigger] behind[i]),
        rest.len() > 0 ==> !is_white(rest.last()),
    ensures
        trimmed_end(rest + behind) == rest,
    decreases behind.len(),
{
    let all = rest + behind;
    if behind.len() == 0 {
        assert(all =~= rest);
    } else {
        assert(all.last() == behind[behind.len() - 1]);
        let less = behind.drop_last();
        assert forall|i: int| 0 <= i < less.len() implies is_white(#[trigger] less[i]) by {
            assert(less[i] == behind[i]);
        }
        end_is_trimmed(rest, less);
        assert(all.drop_last() =~= rest + less);
    }
}

/// The white space around a text is trimmed off, all of it and nothing else.
pub proof fn white_around_is_trimmed(before: Seq<char>, s: Seq<char>, behind: Seq<char>)
    requires
        forall|i: int| 0 <= i < before.len() ==> is_white(#[trigger] before[i]),
        forall|i: int| 0 <= i < behind.len() ==> is_white(#[trigger] behind[i]),
        s.len() > 0 ==> !is_white(s[0]) && !is_white(s.last()),
    ensures
        trimmed(before + s + behind) == s,
        trimmed_end(s + behind) == s,
        trimmed_start(before + s) == s,
{
    end_is_trimmed(s, behind);
    start_is_trimmed(before, s);
    if s.len() > 0 {
        assert(before + s + behind =~= before + (s + behind));
        assert((s + behind)[0] == s[0]);
        start_is_trimmed(before, s + behind);
    } else {
        let all = before + behind;
        assert(before + s + behind =~= all + s);
        assert forall|i: int| 0 <= i < all.len() implies is_white(#[trigger] all[i]) by {
            if i < before.len() {
                assert(all[i] == before[i]);
            } else {
                assert(all[i] == behind[i - before.len()]);
            }
        }
        start_is_trimmed(all, s);
        assert(s =~= Seq::<char>::empty());
    }
}

/// A character is stripped off both ends as often as it stands there.
pub proof fn ends_are_stripped(c: char, a: nat, s: Seq<char>, b: nat)
    requires
        s.len() > 0 ==> s[0] != c && s.last() != c,
    ensures
        stripped_start(Seq::new(a, |i: int| c) + s, c) == s,
        stripped_end(s + Seq::new(b, |i: int| c), c) == s,
    decreases a + b,
{
    let x = Seq::new(a, |i: int| c) + s;
    let y = s + Seq::new(b, |i: int| c);
    if a > 0 {
        ends_are_stripped(c, (a - 1) as nat, s, 0);
        assert(x.skip(1) =~= Seq::new((a - 1) as nat, |i: int| c) + s);
    } else {
        assert(x =~= s);
    }
    if b > 0 {
        ends_are_stripped(c, 0, s, (b - 1) as nat);
        assert(y.drop_last() =~= s + Seq::new((b - 1) as nat, |i: int| c));
    } else {
        assert(y =~= s);
    }
}

/// Letters are lowered one by one, and every other character stays.
pub proof fn letters_are_lowered(s: Seq<char>, i: int)
    requires
        0 <= i < s.len(),
    ensures
        lowered(s).len() == s.len(),
        'A' <= s[i] <= 'Z' ==> lowered(s)[i] as int == s[i] as int + 32,
        !('A' <= s[i] <= 'Z') ==> lowered(s)[i] == s[i],
{
    assert(lowered(s)[i] == lower(s[i]));
}

/// One character is put for another wherever it stands, and every other one stays.
pub proof fn characters_are_replaced(s: Seq<char>, from: char, to: char, i: int)
    requires
        0 <= i < s.len(),
    ensures
        with_char_replaced(s, from, to).len() == s.len(),
        s[i] == from ==> with_char_replaced(s, from, to)[i] == to,
        s[i] != from ==> with_char_replaced(s, from, to)[i] == s[i],
{
}

// ---------------------------------------------------------------------------------------------
// Splitting
// ---------------------------------------------------------------------------------------------

proof fn joined_grows(parts: Seq<Seq<char>>, sep: Seq<char>, c: char)
    requires
        parts.len() > 0,
    ensures
        joined(parts.update(parts.len() - 1, parts.last().push(c)), sep) == joined(parts, sep).push(
            c,
        ),
        joined(parts.push(Seq::empty()), sep) == joined(parts, sep) + sep,
{
    let n = parts.len() - 1;
    let longer = parts.update(n, parts.last().push(c));
    let more = parts.push(Seq::<char>::empty());
    assert(more.drop_last() =~= parts);
    assert(joined(more, sep) =~= joined(parts, sep) + sep);
    if parts.len() == 1 {
        assert(longer[0] == parts[0].push(c));
    } else {
        assert(longer.drop_last() =~= parts.drop_last());
        assert(longer.last() == parts.last().push(c));
        assert(joined(longer, sep) =~= joined(parts, sep).push(c));
    }
}

/// The fields of a text, with what parts them between each two, are the text, and none of them has
/// it in it.
pub proof fn fields_make_up_the_text(s: Seq<char>, c: char)
    ensures
        joined(fields_of(s, c), seq![c]) == s,
        forall|i: int, k: int|
            0 <= i < fields_of(s, c).len() && 0 <= k < fields_of(s, c)[i].len()
                ==> #[trigger] fields_of(s, c)[i][k] != c,
    decreases s.len(),
{
    pieces_not_empty(s, only(c));
    if s.len() == 0 {
        assert(joined(fields_of(s, c), seq![c]) =~= s);
    } else {
        let t = s.drop_last();
        fields_make_up_the_text(t, c);
        pieces_not_empty(t, only(c));
        let before = fields_of(t, c);
        joined_grows(before, seq![c], s.last());
        if s.last() == c {
            assert(t + seq![c] =~= s);
        } else {
            assert(t.push(s.last()) =~= s);
        }
        assert forall|i: int, k: int|
            0 <= i < fields_of(s, c).len() && 0 <= k < fields_of(s, c)[i].len() implies
            #[trigger] fields_of(s, c)[i][k] != c by {
            if i < before.len() - 1 {
                assert(fields_of(s, c)[i] == before[i]);
                assert(before[i][k] != c);
            } else if s.last() != c {
                assert(fields_of(s, c)[i] == before.last().push(s.last()));
                if k < before.last().len() {
                    assert(before[before.len() - 1][k] != c);
                }
            } else if i < before.len() {
                assert(fields_of(s, c)[i] == before[i]);
                assert(before[i][k] != c);
            }
        }
    }
}

/// A text without a carriage return whose last line is ended is made up of its lines, each with its
/// line feed.
pub proof fn lines_make_up_the_text(s: Seq<char>)
    requires
        s.len() > 0,
        s.last() == '\n',
        !s.contains('\r'),
    ensures
        joined(lines_of(s), seq!['\n']) + seq!['\n'] == s,
{
    let nl = only('\n');
    let p = pieces(s, nl);
    let t = s.drop_last();
    let q = pieces(t, nl);
    fields_make_up_the_text(t, '\n');
    pieces_not_empty(t, nl);
    assert(p == q.push(Seq::empty()));
    assert(p.drop_last() =~= q);
    assert forall|i: int| 0 <= i < q.len() implies #[trigger] super::split::without_cr(q[i])
        == q[i] by {
        if q[i].len() > 0 && q[i].last() == '\r' {
            pieces_come_from_the_text(t, nl, i, q[i].len() - 1);
            let k = choose|k: int| 0 <= k < t.len() && t[k] == q[i][q[i].len() - 1];
            assert(s[k] == '\r');
            assert(s.contains('\r'));
        }
    }
    assert(lines_of(s) =~= q);
    assert(t + seq!['\n'] =~= s);
}

proof fn pieces_come_from_the_text(s: Seq<char>, at: spec_fn(char) -> bool, i: int, k: int)
    requires
        0 <= i < pieces(s, at).len(),
        0 <= k < pieces(s, at)[i].len(),
    ensures
        exists|n: int| 0 <= n < s.len() && s[n] == pieces(s, at)[i][k],
    decreases s.len(),
{
    if s.len() > 0 {
        let t = s.drop_last();
        pieces_not_empty(t, at);
        let before = pieces(t, at);
        let c = pieces(s, at)[i][k];
        if i < before.len() && k < before[i].len() {
            assert(before[i][k] == c);
            pieces_come_from_the_text(t, at, i, k);
            let n = choose|n: int| 0 <= n < t.len() && t[n] == before[i][k];
            assert(s[n] == c);
        } else {
            assert(s[s.len() - 1] == c);
        }
    }
}

// ---------------------------------------------------------------------------------------------
// Numbers
// ---------------------------------------------------------------------------------------------

/// A number that is written out is read as that number, as long as it fits.
pub proof fn written_number_is_read(n: nat, max: nat)
    ensures
        unsigned_of(decimal(n), max) == if n <= max {
            Some(n)
        } else {
            None
        },
        n <= 0x7fff_ffff ==> signed_of(signed_decimal(n as int)) == Some(n as int),
        0 < n <= 0x8000_0000 ==> signed_of(signed_decimal(-(n as int))) == Some(-(n as int)),
{
    reveal_strlit("-");
    decimal_not_empty(n);
    decimal_reads_back(n);
    let d = decimal(n);
    assert(super::chars::is_digit(d[0]));
    let m = "-"@ + d;
    assert(m.skip(1) =~= d);
    assert(m[0] == '-');
}

/// Padding puts spaces before a text, or behind it, up to the width; the text itself stays.
pub proof fn padding_fills_the_width(s: Seq<char>, w: nat)
    ensures
        padded_left(s, w).len() == if s.len() >= w {
            s.len()
        } else {
            w
        },
        padded_right(s, w).len() == padded_left(s, w).len(),
        padded_left(s, w).skip(padded_left(s, w).len() - s.len()) == s,
        padded_right(s, w).take(s.len() as int) == s,
        forall|i: int|
            0 <= i < padded_left(s, w).len() - s.len() ==> #[trigger] padded_left(s, w)[i] == ' ',
        forall|i: int|
            s.len() <= i < padded_right(s, w).len() ==> #[trigger] padded_right(s, w)[i] == ' ',
{
    assert(padded_left(s, w).skip(padded_left(s, w).len() - s.len()) =~= s);
    assert(padded_right(s, w).take(s.len() as int) =~= s);
}

/// Points in time and spans are counted in milliseconds, as far as they can be written down.
pub proof fn time_is_counted(a: u64, b: u64)
    ensures
        a + b <= u64::MAX ==> later(a, b) == a + b,
        a + b > u64::MAX ==> later(a, b) == u64::MAX,
        a >= b ==> since(a, b) == a - b,
        a < b ==> since(a, b) == 0,
        a * 1000 <= u64::MAX ==> in_ms(a) == a * 1000,
        a * 1000 > u64::MAX ==> in_ms(a) == u64::MAX,
{
}

} // verus!
