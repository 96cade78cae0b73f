//! Laws on how the arguments of the commands are read.

use vstd::prelude::*;

use super::clock::{
    clock_of, first_instant, half_of, instant_of, until_wait, without_half, written_clock, Clock,
    Half, LocalNow, Resolved, UntilError,
};
use super::dump::{dump_asked, last_of, with_feeds, DumpError, DumpRequest};
use super::duration::{
    added_parts, blank_run, duration_ms, written_parts_add_up, DurationErrorModel,
};
use super::handlers::{
    answer_words, list_words, profile_asked, stop_words, trigger_asked, ProfileRequestModel,
    TriggerModel,
};
use super::pause::{pause_asked, PauseModel};
use super::router::{is_command, routed, RouteModel};
use crate::text::chars::{is_digit, is_white, lower};
use crate::text::numbers::{
    all_digits, decimal, decimal_not_empty, decimal_reads_back, digits_value, signed_of,
    unsigned_of,
};
use crate::text::split::{
    first_index, first_index_is_first, is_word, words_of, words_of_one, words_of_two,
};
use crate::text::strings::{has_prefix, has_suffix, joined, lowered, spaces, trimmed, without_white};

verus! {

// ---------------------------------------------------------------------------------------------
// Text
// ---------------------------------------------------------------------------------------------

/// Nothing is trimmed off a text that neither begins nor ends with white space.
proof fn bare_stays(s: Seq<char>)
    requires
        s.len() > 0,
        !is_white(s[0]),
        !is_white(s.last()),
    ensures
        trimmed(s) == s,
{
}

proof fn filter_keeps(s: Seq<char>, f: spec_fn(char) -> bool)
    requires
        forall|i: int| 0 <= i < s.len() ==> f(#[trigger] s[i]),
    ensures
        s.filter(f) == s,
    decreases s.len(),
{
    reveal(Seq::filter);
    if s.len() > 0 {
        let t = s.drop_last();
        assert forall|i: int| 0 <= i < t.len() implies f(#[trigger] t[i]) by {
            assert(t[i] == s[i]);
        }
        filter_keeps(t, f);
        assert(t.push(s.last()) =~= s);
    } else {
        assert(s.filter(f) =~= s);
    }
}

proof fn filter_drops(s: Seq<char>, f: spec_fn(char) -> bool)
    requires
        forall|i: int| 0 <= i < s.len() ==> !f(#[trigger] s[i]),
    ensures
        s.filter(f) == Seq::<char>::empty(),
    decreases s.len(),
{
    reveal(Seq::filter);
    if s.len() > 0 {
        let t = s.drop_last();
        assert forall|i: int| 0 <= i < t.len() implies !f(#[trigger] t[i]) by {
            assert(t[i] == s[i]);
        }
        filter_drops(t, f);
    } else {
        assert(s.filter(f) =~= Seq::<char>::empty());
    }
}

// ---------------------------------------------------------------------------------------------
// Times of day
// ---------------------------------------------------------------------------------------------

/// The digits `d` write the number `n`.
pub open spec fn writes(d: Seq<char>, n: int) -> bool {
    d.len() > 0 && all_digits(d) && digits_value(d) == n && n <= 0x7fff_ffff
}

/// The text writes an hour, or an hour and a minute with a colon between them.
pub open spec fn writes_time(t: Seq<char>, h: int, m: int) -> bool {
    ||| writes(t, h) && m == 0
    ||| exists|i: int|
        0 <= i < t.len() && #[trigger] t[i] == ':' && writes(t.take(i), h) && writes(
            t.skip(i + 1),
            m,
        )
}

/// The letters of a half of the day, in capitals or not.
pub open spec fn marks(mark: Seq<char>, pm: bool) -> bool {
    &&& mark.len() == 2
    &&& if pm {
        mark[0] == 'p' || mark[0] == 'P'
    } else {
        mark[0] == 'a' || mark[0] == 'A'
    }
    &&& mark[1] == 'm' || mark[1] == 'M'
}

proof fn digits_are_read(d: Seq<char>, n: int)
    requires
        writes(d, n),
    ensures
        signed_of(d) == Some(n),
        forall|i: int| 0 <= i < d.len() ==> '0' <= #[trigger] d[i] <= '9',
{
    assert(is_digit(d[0]));
}

proof fn time_is_read(t: Seq<char>, h: int, m: int)
    requires
        writes_time(t, h, m),
    ensures
        written_clock(t) == Ok::<(int, int), UntilError>((h, m)),
        t.len() > 0,
        forall|i: int| 0 <= i < t.len() ==> ('0' <= #[trigger] t[i] <= '9' || t[i] == ':'),
        '0' <= t.last() <= '9',
        '0' <= t[0] <= '9',
{
    first_index_is_first(t, ':');
    if writes(t, h) && m == 0 {
        digits_are_read(t, h);
    } else {
        let i = choose|i: int|
            0 <= i < t.len() && #[trigger] t[i] == ':' && writes(t.take(i), h) && writes(
                t.skip(i + 1),
                m,
            );
        digits_are_read(t.take(i), h);
        digits_are_read(t.skip(i + 1), m);
        assert forall|k: int| 0 <= k < t.len() implies ('0' <= #[trigger] t[k] <= '9' || t[k]
            == ':') && (k < i ==> t[k] != ':') by {
            if k < i {
                assert(t[k] == t.take(i)[k]);
            } else if k > i {
                assert(t[k] == t.skip(i + 1)[k - i - 1]);
            }
        }
        assert(first_index(t, ':') == i);
        assert(t.last() == t.skip(i + 1).last());
        assert(t[0] == t.take(i)[0]);
    }
}

proof fn half_is_read(t: Seq<char>, gap: nat, mark: Seq<char>, pm: bool)
    requires
        marks(mark, pm),
        t.len() > 0,
        forall|i: int| 0 <= i < t.len() ==> ('0' <= #[trigger] t[i] <= '9' || t[i] == ':'),
    ensures
        ({
            let text = t + spaces(gap) + mark;
            let read = without_white(lowered(trimmed(text)));
            &&& trimmed(text).len() > 0
            &&& half_of(read) == if pm {
                Half::Pm
            } else {
                Half::Am
            }
            &&& without_half(read) == t
        }),
{
    reveal_strlit("am");
    reveal_strlit("pm");
    let text = t + spaces(gap) + mark;
    assert(text[0] == t[0] && text.last() == mark[1]);
    bare_stays(text);
    let f = |c: char| !is_white(c);
    let low = lowered(mark);
    assert(lowered(text) =~= t + spaces(gap) + low);
    assert forall|i: int| 0 <= i < t.len() implies f(#[trigger] t[i]) by {
        assert('0' <= t[i] <= '9' || t[i] == ':');
    }
    filter_keeps(t, f);
    filter_drops(spaces(gap), f);
    assert(low[0] == lower(mark[0]) && low[1] == lower(mark[1]));
    filter_keeps(low, f);
    Seq::filter_distributes_over_add(t + spaces(gap), low, f);
    Seq::filter_distributes_over_add(t, spaces(gap), f);
    let read = without_white(lowered(text));
    assert(read =~= t + low);
    assert(read.skip(read.len() - 2) =~= low);
    assert(low =~= if pm {
        "pm"@
    } else {
        "am"@
    });
    assert(read.take(read.len() - 2) =~= t);
}

/// The hours of a half of the day count from twelve: `12am` is midnight and `12pm` is noon. A time
/// in `am` lies before noon, one in `pm` at noon or behind it, and the two are twelve hours apart.
/// Hours beyond twelve are refused, and minutes beyond 59.
pub proof fn halves_are_twelve_hours_apart(
    t: Seq<char>,
    h: int,
    m: int,
    gap: nat,
    am: Seq<char>,
    pm: Seq<char>,
)
    requires
        writes_time(t, h, m),
        marks(am, false),
        marks(pm, true),
    ensures
        ({
            let early = clock_of(t + spaces(gap) + am);
            let late = clock_of(t + spaces(gap) + pm);
            &&& m > 59 ==> early == Err::<Clock, UntilError>(UntilError::MinuteRange) && late
                == early
            &&& m <= 59 && !(1 <= h <= 12) ==> early == Err::<Clock, UntilError>(
                UntilError::HourRange12,
            ) && late == early
            &&& m <= 59 && 1 <= h <= 12 ==> {
                &&& early matches Ok(c) && c.hour == h % 12 && c.minute == m && c.hour < 12
                &&& late matches Ok(c) && c.hour == h % 12 + 12 && c.minute == m && 12 <= c.hour
                    < 24
            }
        }),
{
    time_is_read(t, h, m);
    half_is_read(t, gap, am, false);
    half_is_read(t, gap, pm, true);
}

/// Without a half of the day, the hours are those of a whole day.
pub proof fn hours_count_through_the_day(t: Seq<char>, h: int, m: int)
    requires
        writes_time(t, h, m),
    ensures
        m > 59 ==> clock_of(t) == Err::<Clock, UntilError>(UntilError::MinuteRange),
        m <= 59 && h > 23 ==> clock_of(t) == Err::<Clock, UntilError>(UntilError::HourRange24),
        m <= 59 && h <= 23 ==> (clock_of(t) matches Ok(c) && c.hour == h && c.minute == m),
{
    reveal_strlit("am");
    reveal_strlit("pm");
    time_is_read(t, h, m);
    bare_stays(t);
    assert(lowered(t) =~= t);
    let f = |c: char| !is_white(c);
    assert forall|i: int| 0 <= i < t.len() implies f(#[trigger] t[i]) by {
        assert('0' <= t[i] <= '9' || t[i] == ':');
    }
    filter_keeps(t, f);
    if has_suffix(t, "am"@) || has_suffix(t, "pm"@) {
        assert(t.last() == t.skip(t.len() - 2)[1]);
    }
}

// ---------------------------------------------------------------------------------------------
// The wait for a time of day
// ---------------------------------------------------------------------------------------------

/// The clock shows none of the first `i` times, and the next one first at the instant `t`.
pub open spec fn shows_first(tried: Seq<Resolved>, i: int, t: i64) -> bool {
    &&& 0 <= i < tried.len()
    &&& forall|k: int| 0 <= k < i ==> #[trigger] tried[k] == Resolved::Never
    &&& tried[i] == Resolved::Once(t) || (exists|u: i64|
        t <= u && #[trigger] tried[i] == Resolved::Twice(t, u)) || (exists|u: i64|
        t <= u && #[trigger] tried[i] == Resolved::Twice(u, t))
}

proof fn shown_first_is_meant(tried: Seq<Resolved>, k: int, i: int, t: i64)
    requires
        shows_first(tried, i, t),
        0 <= k <= i,
    ensures
        first_instant(tried, k) == Some(t),
    decreases i - k,
{
    if k < i {
        assert(tried[k] == Resolved::Never);
        shown_first_is_meant(tried, k + 1, i, t);
    } else {
        assert(instant_of(tried[i]) == Some(t));
    }
}

/// The wait lasts until the clock shows the time today, if that is to come, and otherwise until it
/// shows it tomorrow: to the millisecond, without the rest of one.
pub proof fn wait_lasts_until_the_next_time(
    now: LocalNow,
    today: Seq<Resolved>,
    tomorrow: Seq<Resolved>,
    i: int,
    t: i64,
    j: int,
    u: i64,
)
    requires
        shows_first(today, i, t),
        shows_first(tomorrow, j, u),
        now.nanos < 1_000_000_000,
    ensures
        ({
            let r = until_wait(now, today, tomorrow);
            let from = now.secs * 1_000_000_000 + now.nanos;
            let aim = if t > now.secs {
                t
            } else {
                u
            };
            let left = aim * 1_000_000_000 - from;
            &&& left <= 0 ==> r == Ok::<u64, UntilError>(0)
            &&& 0 < left < (u64::MAX + 1) * 1_000_000 ==> (r matches Ok(ms) && ms * 1_000_000
                <= left < (ms + 1) * 1_000_000)
            &&& left >= (u64::MAX + 1) * 1_000_000 ==> r == Err::<u64, UntilError>(
                UntilError::TooLarge,
            )
        }),
{
    shown_first_is_meant(today, 0, i, t);
    shown_first_is_meant(tomorrow, 0, j, u);
    assert(today[0] != Resolved::NoDate);
    assert(tomorrow[0] != Resolved::NoDate);
}

proof fn never_shown_is_none(tried: Seq<Resolved>, k: int)
    requires
        forall|i: int| 0 <= i < tried.len() ==> #[trigger] tried[i] == Resolved::Never,
        0 <= k,
    ensures
        first_instant(tried, k) is None,
    decreases tried.len() - k,
{
    if k < tried.len() {
        assert(tried[k] == Resolved::Never);
        never_shown_is_none(tried, k + 1);
    }
}

/// There is no wait for a time that the clock does not show, nor for a day that does not exist.
pub proof fn missing_times_are_refused(
    now: LocalNow,
    today: Seq<Resolved>,
    tomorrow: Seq<Resolved>,
)
    ensures
        today.len() > 0 && today[0] == Resolved::NoDate ==> until_wait(now, today, tomorrow)
            == Err::<u64, UntilError>(UntilError::NoDate),
        today.len() > 0 && (forall|i: int|
            0 <= i < today.len() ==> #[trigger] today[i] == Resolved::Never) ==> until_wait(
            now,
            today,
            tomorrow,
        ) == Err::<u64, UntilError>(UntilError::NoSuchTime),
{
    if today.len() > 0 && (forall|i: int|
        0 <= i < today.len() ==> #[trigger] today[i] == Resolved::Never) {
        assert(today[0] == Resolved::Never);
        never_shown_is_none(today, 0);
    }
}

// ---------------------------------------------------------------------------------------------
// Spans of time
// ---------------------------------------------------------------------------------------------

/// The unit lasts `ms` milliseconds.
pub open spec fn lasts(unit: Seq<char>, ms: nat) -> bool {
    ||| unit == seq!['m', 's'] && ms == 1
    ||| unit == seq!['s'] && ms == 1000
    ||| unit == seq!['m'] && ms == 60 * 1000
    ||| unit == seq!['h'] && ms == 60 * 60 * 1000
    ||| unit == seq!['d'] && ms == 24 * 60 * 60 * 1000
}

proof fn units_are_known(unit: Seq<char>, ms: nat)
    requires
        lasts(unit, ms),
    ensures
        super::duration::unit_ms(unit) == Some(ms),
        unit.len() > 0,
        !is_white(unit.last()),
{
    reveal_strlit("ms");
    reveal_strlit("s");
    reveal_strlit("m");
    reveal_strlit("h");
    reveal_strlit("d");
    assert("ms"@.len() == 2 && "s"@[0] == 's' && "m"@[0] == 'm' && "h"@[0] == 'h' && "d"@[0]
        == 'd');
    assert(unit =~= "ms"@ || unit =~= "s"@ || unit =~= "m"@ || unit =~= "h"@ || unit =~= "d"@);
}

/// A number with a unit lasts that many units, and two of them last as long as both together. What
/// lasts too long to be counted is refused.
pub proof fn spans_last_their_units(n: nat, u: Seq<char>, f: nat, k: nat, v: Seq<char>, g: nat)
    requires
        lasts(u, f),
        lasts(v, g),
        n * f + k * g <= u128::MAX,
        n <= u128::MAX,
        k <= u128::MAX,
    ensures
        ({
            let one = duration_ms(decimal(n) + u);
            let both = duration_ms(decimal(n) + u + decimal(k) + v);
            let too_large = Err::<nat, DurationErrorModel>(DurationErrorModel::TooLarge);
            &&& one == if n * f <= u64::MAX {
                Ok::<nat, DurationErrorModel>(n * f)
            } else {
                too_large
            }
            &&& both == if n * f + k * g <= u64::MAX {
                Ok::<nat, DurationErrorModel>(n * f + k * g)
            } else {
                too_large
            }
        }),
{
    units_are_known(u, f);
    units_are_known(v, g);
    decimal_not_empty(n);
    decimal_not_empty(k);
    assert(0 <= n * f && 0 <= k * g) by (nonlinear_arith);
    let nothing = Seq::<char>::empty();
    let one = decimal(n) + u;
    let rest = decimal(k) + v;
    let both = decimal(n) + u + decimal(k) + v;
    assert(is_digit(decimal(n)[0]) && is_digit(decimal(k)[0]));
    assert(one[0] == decimal(n)[0] && one.last() == u.last());
    assert(both[0] == decimal(n)[0] && both.last() == v.last());
    bare_stays(one);
    bare_stays(both);
    assert(one =~= decimal(n) + u + nothing);
    assert(both =~= decimal(n) + u + rest);
    assert(rest =~= decimal(k) + v + nothing);
    assert(rest[0] == decimal(k)[0]);
    assert(nothing.skip(0).len() == 0);
    written_parts_add_up(n, u, nothing, 0);
    written_parts_add_up(n, u, rest, 0);
    written_parts_add_up(k, v, nothing, (n * f) as nat);
    assert(added_parts(nothing, n * f) == Ok::<nat, DurationErrorModel>(n * f));
    assert(added_parts(nothing, n * f + k * g) == Ok::<nat, DurationErrorModel>(n * f + k * g));
}

proof fn blank_is_passed_over(x: Seq<char>, total: nat)
    requires
        x.len() > 0,
        is_digit(x[0]),
    ensures
        added_parts(seq![' '] + x, total) == added_parts(x, total),
{
    let s = seq![' '] + x;
    assert(s.skip(1) =~= x);
    reveal_with_fuel(blank_run, 3);
    assert(blank_run(x) == 0);
    assert(blank_run(s) == 1);
    assert(x.skip(0) =~= x);
    assert(s.skip(blank_run(s) as int) == x.skip(blank_run(x) as int));
}

/// A blank between the parts of a span makes no difference.
pub proof fn parts_may_stand_apart(n: nat, u: Seq<char>, f: nat, k: nat, v: Seq<char>, g: nat)
    requires
        lasts(u, f),
        lasts(v, g),
        n * f + k * g <= u64::MAX,
        n <= u128::MAX,
        k <= u128::MAX,
    ensures
        duration_ms(decimal(n) + u + seq![' '] + decimal(k) + v) == Ok::<nat, DurationErrorModel>(
            n * f + k * g,
        ),
{
    spans_last_their_units(n, u, f, k, v, g);
    units_are_known(u, f);
    units_are_known(v, g);
    decimal_not_empty(n);
    decimal_not_empty(k);
    assert(0 <= n * f && 0 <= k * g) by (nonlinear_arith);
    let rest = decimal(k) + v;
    let apart = seq![' '] + rest;
    let both = decimal(n) + u + seq![' '] + decimal(k) + v;
    assert(is_digit(decimal(n)[0]) && is_digit(decimal(k)[0]));
    assert(rest[0] == decimal(k)[0]);
    assert(both =~= decimal(n) + u + apart);
    assert(both[0] == decimal(n)[0] && both.last() == v.last());
    bare_stays(both);
    assert(apart[0] == ' ');
    written_parts_add_up(n, u, apart, 0);
    blank_is_passed_over(rest, (n * f) as nat);
    let nothing = Seq::<char>::empty();
    assert(rest =~= decimal(k) + v + nothing);
    assert(nothing.skip(0).len() == 0);
    written_parts_add_up(k, v, nothing, (n * f) as nat);
    assert(added_parts(nothing, n * f + k * g) == Ok::<nat, DurationErrorModel>(n * f + k * g));
}

// ---------------------------------------------------------------------------------------------
// Requests
// ---------------------------------------------------------------------------------------------

proof fn words_stay(w: Seq<char>)
    requires
        is_word(w),
    ensures
        trimmed(w) == w,
        words_of(w) == seq![w],
{
    assert(!is_white(w[0]) && !is_white(w[w.len() - 1]));
    bare_stays(w);
    words_of_one(w);
}

/// `pause for` asks for a pause of that length, `pause until` for one until that time of day; what
/// cannot be read is refused.
pub proof fn pause_lasts_as_asked(w: Seq<char>)
    requires
        is_word(w),
    ensures
        ({
            let long = pause_asked(seq!['f', 'o', 'r', ' '] + w);
            &&& duration_ms(w) matches Ok(ms) ==> long == (PauseModel::For {
                text: w,
                ms: ms as u64,
            })
            &&& duration_ms(w) is Err ==> long is Refused
        }),
        ({
            let long = pause_asked(seq!['u', 'n', 't', 'i', 'l', ' '] + w);
            &&& clock_of(w) matches Ok(clock) ==> long == (PauseModel::Until { text: w, clock })
            &&& clock_of(w) is Err ==> long is Refused
        }),
{
    reveal_strlit("for");
    reveal_strlit("until");
    reveal_strlit("help");
    reveal_strlit("-h");
    reveal_strlit("--help");
    words_stay(w);
    let a = seq!['f', 'o', 'r'];
    let b = seq!['u', 'n', 't', 'i', 'l'];
    assert("for"@ =~= a);
    assert("until"@ =~= b);
    words_of_two(a, w);
    words_of_two(b, w);
    let x = seq!['f', 'o', 'r', ' '] + w;
    let y = seq!['u', 'n', 't', 'i', 'l', ' '] + w;
    assert(x =~= a + seq![' '] + w);
    assert(y =~= b + seq![' '] + w);
    assert(x.last() == w[w.len() - 1] && y.last() == w[w.len() - 1]);
    bare_stays(x);
    bare_stays(y);
    assert(x[0] == 'f' && y[0] == 'u');
    assert(lowered(x)[0] == 'f' && lowered(y)[0] == 'u' && lowered("help"@)[0] == 'h');
    assert(seq![a, w].skip(1) =~= seq![w]);
    assert(seq![b, w].skip(1) =~= seq![w]);
    reveal_with_fuel(joined, 2);
    assert(joined(seq![w], " "@) =~= w);
}

/// Whatever asks for a pause pauses, also what is refused; only the call for help does not. What is
/// understood voids the resumes that were scheduled before.
pub proof fn requests_for_a_pause_pause(p: PauseModel)
    ensures
        p is Help ==> !p.pauses() && !p.renews(),
        p is Refused ==> p.pauses() && !p.renews(),
        p is Indefinite || p is For || p is Until ==> p.pauses() && p.renews(),
{
}

/// What succeeds is answered as it is, and what fails with a word that it failed.
pub proof fn failures_are_marked(m: Seq<char>)
    ensures
        answer_words(Ok(m)) == m,
        answer_words(Err(m)) == "ERROR: "@ + m,
        list_words(Err(m)) == "ERROR: "@ + m + "\n"@,
        m.len() > 0 && m.last() == '\n' ==> list_words(Ok(m)) == m,
        m.len() > 0 && m.last() != '\n' ==> list_words(Ok(m)) == m + "\n"@,
        m.len() > 0 && !is_white(m.last()) ==> stop_words(Ok(m)) == m && stop_words(Err(m))
            == "ERROR: "@ + m,
{
    reveal_strlit("\n");
    if m.len() > 0 {
        let tail = m.skip(m.len() - 1);
        assert(tail[0] == m.last());
        if m.last() == '\n' {
            assert(tail =~= "\n"@);
        } else {
            assert("\n"@[0] == '\n');
        }
    }
}

/// `dump` with a number asks for that many lines, and for no more than two thousand; without one,
/// for a hundred. None is no number of lines.
pub proof fn dump_shows_as_many_lines(n: nat)
    requires
        n <= usize::MAX,
    ensures
        dump_asked(decimal(n)) == if n == 0 {
            DumpRequest::Refused(DumpError::Zero)
        } else if n <= 2000 {
            DumpRequest::Last(n as usize)
        } else {
            DumpRequest::Last(2000)
        },
        dump_asked(Seq::empty()) == DumpRequest::Last(100),
{
    reveal_strlit("help");
    reveal_strlit("-h");
    reveal_strlit("--help");
    let d = decimal(n);
    decimal_not_empty(n);
    decimal_reads_back(n);
    assert forall|i: int| 0 <= i < d.len() implies !is_white(#[trigger] d[i]) by {
        assert(is_digit(d[i]));
    }
    words_stay(d);
    assert(is_digit(d[0]));
    assert(unsigned_of(d, usize::MAX as nat) == Some(n));
}

/// Every line that is shown ends with a line feed, and nothing stands between the lines.
pub proof fn shown_lines_are_ended(all: Seq<Seq<char>>)
    requires
        all.len() > 0,
    ensures
        with_feeds(all) == joined(all, "\n"@) + "\n"@,
    decreases all.len(),
{
    let rest = all.drop_last();
    if all.len() == 1 {
        assert(with_feeds(rest) =~= Seq::<char>::empty());
        assert(with_feeds(all) =~= joined(all, "\n"@) + "\n"@);
    } else {
        shown_lines_are_ended(rest);
    }
}

/// What is shown of a log is its end.
pub proof fn last_lines_are_the_end(all: Seq<Seq<char>>, n: nat, i: int)
    ensures
        last_of(all, n).len() == if all.len() <= n {
            all.len()
        } else {
            n
        },
        0 <= i < last_of(all, n).len() ==> last_of(all, n)[i] == all[all.len() - last_of(
            all,
            n,
        ).len() + i],
{
}

/// `profile` with a name asks for that profile, and `none` for no profile.
pub proof fn profile_is_asked_by_name(w: Seq<char>)
    requires
        is_word(w),
        w != "help"@,
        w != "-h"@,
        w != "--help"@,
    ensures
        w == "none"@ ==> profile_asked(w) == (ProfileRequestModel::Switch { name: None }),
        w != "none"@ ==> profile_asked(w) == (ProfileRequestModel::Switch { name: Some(w) }),
{
    words_stay(w);
}

/// `trigger` with a name asks for that step.
pub proof fn step_is_asked_by_name(w: Seq<char>)
    requires
        is_word(w),
        lowered(w) != "help"@,
        w != "-h"@,
        w != "--help"@,
    ensures
        trigger_asked(w) == (TriggerModel::Step { name: w }),
        trigger_asked(Seq::empty()) == TriggerModel::MissingName,
{
    reveal_strlit("help");
    assert(lowered("help"@) =~= "help"@);
    words_stay(w);
}

proof fn command_is_told(name: Seq<char>, args: Seq<char>, other: Seq<char>)
    requires
        is_word(name),
        is_word(other),
        args.len() > 0,
        !is_white(args[0]),
        !is_white(args.last()),
    ensures
        ({
            let cmd = name + seq![' '] + args;
            &&& trimmed(cmd) == cmd
            &&& cmd != other
            &&& is_command(cmd, name)
            &&& trimmed(cmd.skip(name.len() as int)) == args
            &&& is_command(cmd, other) ==> other == name
        }),
{
    reveal_strlit(" ");
    let cmd = name + seq![' '] + args;
    assert(cmd[0] == name[0] && cmd.last() == args.last());
    bare_stays(cmd);
    assert(cmd[name.len() as int] == ' ');
    assert(" "@ =~= seq![' ']);
    assert(cmd.take(name.len() as int + 1) =~= name + " "@);
    assert(is_command(cmd, name));
    let rest = cmd.skip(name.len() as int);
    assert(rest =~= seq![' '] + args);
    assert(rest.skip(1) =~= args);
    bare_stays(args);
    reveal_with_fuel(crate::text::strings::trimmed_start, 2);
    assert(trimmed(rest) == trimmed(args));
    if has_prefix(cmd, other + " "@) {
        let p = cmd.take(other.len() as int + 1);
        assert(p =~= other + " "@);
        assert(cmd[other.len() as int] == p[other.len() as int]);
        if other.len() < name.len() {
            assert(cmd[other.len() as int] == name[other.len() as int]);
        } else if other.len() > name.len() {
            assert(p[name.len() as int] == other[name.len() as int]);
        }
        assert(other =~= name) by {
            assert forall|i: int| 0 <= i < name.len() implies other[i] == name[i] by {
                assert(p[i] == cmd[i] && (other + " "@)[i] == other[i]);
            }
        }
    }
}

/// A command that takes arguments is given those that stand behind it.
pub proof fn commands_get_their_arguments(args: Seq<char>)
    requires
        args.len() > 0,
        !is_white(args[0]),
        !is_white(args.last()),
    ensures
        routed("pause"@ + seq![' '] + args) == (RouteModel::Pause { args }),
        routed("trigger"@ + seq![' '] + args) == (RouteModel::Trigger { args }),
        routed("dump"@ + seq![' '] + args) == (RouteModel::Dump { args }),
        routed("profile"@ + seq![' '] + args) == (RouteModel::Profile { args }),
        routed("list"@ + seq![' '] + args) == (RouteModel::List { args }),
{
    reveal_strlit("info");
    reveal_strlit("reload");
    reveal_strlit("toggle-inhibit");
    reveal_strlit("stop");
    reveal_strlit("resume");
    reveal_strlit("browser-activity");
    reveal_strlit("pause");
    reveal_strlit("trigger");
    reveal_strlit("dump");
    reveal_strlit("profile");
    reveal_strlit("list");
    told_from_the_plain_ones("pause"@, args);
    told_from_the_plain_ones("trigger"@, args);
    told_from_the_plain_ones("dump"@, args);
    told_from_the_plain_ones("profile"@, args);
    told_from_the_plain_ones("list"@, args);
    command_is_told("pause"@, args, "pause"@);
    command_is_told("trigger"@, args, "pause"@);
    command_is_told("trigger"@, args, "trigger"@);
    command_is_told("dump"@, args, "pause"@);
    command_is_told("dump"@, args, "trigger"@);
    command_is_told("dump"@, args, "dump"@);
    command_is_told("profile"@, args, "pause"@);
    command_is_told("profile"@, args, "trigger"@);
    command_is_told("profile"@, args, "dump"@);
    command_is_told("profile"@, args, "profile"@);
    command_is_told("list"@, args, "pause"@);
    command_is_told("list"@, args, "trigger"@);
    command_is_told("list"@, args, "dump"@);
    command_is_told("list"@, args, "profile"@);
    command_is_told("list"@, args, "list"@);
    assert("pause"@[0] == 'p' && "profile"@[1] == 'r' && "pause"@[1] == 'a');
}

proof fn told_from_the_plain_ones(name: Seq<char>, args: Seq<char>)
    requires
        is_word(name),
        name[0] != 'i',
        args.len() > 0,
        !is_white(args[0]),
        !is_white(args.last()),
    ensures
        ({
            let cmd = name + seq![' '] + args;
            &&& !is_command(cmd, "info"@)
            &&& cmd != "reload"@
            &&& cmd != "toggle-inhibit"@
            &&& cmd != "stop"@
            &&& cmd != "resume"@
            &&& cmd != "browser-activity"@
        }),
{
    reveal_strlit("info");
    reveal_strlit("reload");
    reveal_strlit("toggle-inhibit");
    reveal_strlit("stop");
    reveal_strlit("resume");
    reveal_strlit("browser-activity");
    command_is_told(name, args, "info"@);
    command_is_told(name, args, "reload"@);
    command_is_told(name, args, "toggle-inhibit"@);
    command_is_told(name, args, "stop"@);
    command_is_told(name, args, "resume"@);
    command_is_told(name, args, "browser-activity"@);
}

} // verus!
