//! Times of day as they are written, and how long it is until then.

use vstd::prelude::*;

use crate::text::numbers::{parse_i32, signed_of};
use crate::text::split::{first_index, split_once};
use crate::text::strings::{
    has_suffix, lowered, remove_white, strip_suffix, to_ascii_lower, trim, trimmed, without_white,
};

verus! {

/// Why a time of day cannot be used.
#[derive(Debug, Clone, Copy, PartialEq, Eq, Structural)]
pub enum UntilError {
    Missing,
    BadHour,
    BadMinute,
    BadTime,
    MinuteRange,
    HourRange12,
    HourRange24,
    NoDate,
    NoTomorrow,
    NoSuchTime,
    TooLarge,
}

impl UntilError {
    pub open spec fn words(self) -> Seq<char> {
        match self {
            UntilError::Missing => "missing time after 'until'"@,
            UntilError::BadHour => "Invalid time (hour)"@,
            UntilError::BadMinute => "Invalid time (minute)"@,
            UntilError::BadTime => "Invalid time"@,
            UntilError::MinuteRange => "Invalid time: minute must be 0..59"@,
            UntilError::HourRange12 => "Invalid time: hour must be 1..12 for am/pm"@,
            UntilError::HourRange24 => "Invalid time: hour must be 0..23"@,
            UntilError::NoDate => "Failed to read local date"@,
            UntilError::NoTomorrow => "Failed to compute tomorrow"@,
            UntilError::NoSuchTime => "Invalid time (local time does not exist)"@,
            UntilError::TooLarge => "Duration too large"@,
        }
    }

    /// The words that the user reads.
    pub fn message(&self) -> (r: &'static str)
        ensures
            r@ == self.words(),
    {
        match self {
            UntilError::Missing => "missing time after 'until'",
            UntilError::BadHour => "Invalid time (hour)",
            UntilError::BadMinute => "Invalid time (minute)",
            UntilError::BadTime => "Invalid time",
            UntilError::MinuteRange => "Invalid time: minute must be 0..59",
            UntilError::HourRange12 => "Invalid time: hour must be 1..12 for am/pm",
            UntilError::HourRange24 => "Invalid time: hour must be 0..23",
            UntilError::NoDate => "Failed to read local date",
            UntilError::NoTomorrow => "Failed to compute tomorrow",
            UntilError::NoSuchTime => "Invalid time (local time does not exist)",
            UntilError::TooLarge => "Duration too large",
        }
    }
}

// ---------------------------------------------------------------------------------------------
// Times of day
// ---------------------------------------------------------------------------------------------

/// A time of day.
#[derive(Debug, Clone, Copy, PartialEq, Eq, Structural)]
pub struct Clock {
    pub hour: u32,
    pub minute: u32,
}

impl Clock {
    /// There is such a time of day.
    pub open spec fn in_day(self) -> bool {
        self.hour < 24 && self.minute < 60
    }
}

/// The halves of the day that a time can be in.
#[derive(Debug, Clone, Copy, PartialEq, Eq, Structural)]
pub enum Half {
    Am,
    Pm,
    Unsaid,
}

/// The half of the day that a text ends with.
pub open spec fn half_of(t: Seq<char>) -> Half {
    if has_suffix(t, "pm"@) {
        Half::Pm
    } else if has_suffix(t, "am"@) {
        Half::Am
    } else {
        Half::Unsaid
    }
}

/// The text without the half of the day.
pub open spec fn without_half(t: Seq<char>) -> Seq<char> {
    if half_of(t) == Half::Unsaid {
        t
    } else {
        t.take(t.len() - 2)
    }
}

/// The hour and the minute as they are written.
pub open spec fn written_clock(t: Seq<char>) -> Result<(int, int), UntilError> {
    let i = first_index(t, ':') as int;
    if i < t.len() {
        match (signed_of(t.take(i)), signed_of(t.skip(i + 1))) {
            (None, _) => Err(UntilError::BadHour),
            (_, None) => Err(UntilError::BadMinute),
            (Some(h), Some(m)) => Ok((h, m)),
        }
    } else {
        match signed_of(t) {
            Some(h) => Ok((h, 0)),
            None => Err(UntilError::BadTime),
        }
    }
}

/// The hour of a day of 24 hours.
pub open spec fn hour_of(h: int, half: Half) -> Result<int, UntilError> {
    match half {
        Half::Unsaid => if 0 <= h <= 23 {
            Ok(h)
        } else {
            Err(UntilError::HourRange24)
        },
        Half::Am => if 1 <= h <= 12 {
            Ok(if h == 12 {
                0
            } else {
                h
            })
        } else {
            Err(UntilError::HourRange12)
        },
        Half::Pm => if 1 <= h <= 12 {
            Ok(if h == 12 {
                12
            } else {
                h + 12
            })
        } else {
            Err(UntilError::HourRange12)
        },
    }
}

/// The time of day that a text means: `13:30`, `1:30pm`, `1 pm`.
pub open spec fn clock_of(text: Seq<char>) -> Result<Clock, UntilError> {
    let raw = trimmed(text);
    let t = without_white(lowered(raw));
    if raw.len() == 0 {
        Err(UntilError::Missing)
    } else {
        match written_clock(without_half(t)) {
            Err(e) => Err(e),
            Ok((h, m)) => if m < 0 || m > 59 {
                Err(UntilError::MinuteRange)
            } else {
                match hour_of(h, half_of(t)) {
                    Err(e) => Err(e),
                    Ok(hour) => Ok(Clock { hour: hour as u32, minute: m as u32 }),
                }
            },
        }
    }
}

/// What is meant is a time of day.
pub proof fn clock_is_in_the_day(text: Seq<char>)
    ensures
        clock_of(text) matches Ok(c) ==> c.in_day(),
{
}

fn read_clock(t: &str) -> (r: Result<(i32, i32), UntilError>)
    ensures
        match r {
            Ok(c) => written_clock(t@) == Ok::<(int, int), UntilError>((c.0 as int, c.1 as int)),
            Err(e) => written_clock(t@) == Err::<(int, int), UntilError>(e),
        },
{
    match split_once(t, ':') {
        Some(p) => match parse_i32(p.0.as_str()) {
            None => Err(UntilError::BadHour),
            Some(h) => match parse_i32(p.1.as_str()) {
                None => Err(UntilError::BadMinute),
                Some(m) => Ok((h, m)),
            },
        },
        None => match parse_i32(t) {
            None => Err(UntilError::BadTime),
            Some(h) => Ok((h, 0)),
        },
    }
}

fn full_hour(h: i32, half: Half) -> (r: Result<i32, UntilError>)
    ensures
        match r {
            Ok(x) => hour_of(h as int, half) == Ok::<int, UntilError>(x as int),
            Err(e) => hour_of(h as int, half) == Err::<int, UntilError>(e),
        },
{
    match half {
        Half::Unsaid => if 0 <= h && h <= 23 {
            Ok(h)
        } else {
            Err(UntilError::HourRange24)
        },
        Half::Am => if 1 <= h && h <= 12 {
            if h == 12 {
                Ok(0)
            } else {
                Ok(h)
            }
        } else {
            Err(UntilError::HourRange12)
        },
        Half::Pm => if 1 <= h && h <= 12 {
            if h == 12 {
                Ok(12)
            } else {
                Ok(h + 12)
            }
        } else {
            Err(UntilError::HourRange12)
        },
    }
}

/// The time of day that a text means.
pub fn parse_clock(text: &str) -> (r: Result<Clock, UntilError>)
    ensures
        r == clock_of(text@),
{
    let raw = trim(text);
    if raw.as_str().unicode_len() == 0 {
        return Err(UntilError::Missing);
    }
    let low = to_ascii_lower(raw.as_str());
    let t = remove_white(low.as_str());
    proof {
        reveal_strlit("pm");
        reveal_strlit("am");
    }
    let (half, bare) = match strip_suffix(t.as_str(), "pm") {
        Some(x) => (Half::Pm, x),
        None => match strip_suffix(t.as_str(), "am") {
            Some(x) => (Half::Am, x),
            None => (Half::Unsaid, t),
        },
    };
    assert(bare@ =~= without_half(without_white(lowered(trimmed(text@)))));
    let (h, m) = match read_clock(bare.as_str()) {
        Err(e) => {
            return Err(e);
        },
        Ok(c) => c,
    };
    if m < 0 || m > 59 {
        return Err(UntilError::MinuteRange);
    }
    match full_hour(h, half) {
        Err(e) => Err(e),
        Ok(hour) => Ok(Clock { hour: hour as u32, minute: m as u32 }),
    }
}

// ---------------------------------------------------------------------------------------------
// The local clock
// ---------------------------------------------------------------------------------------------

/// What the local clock shows: the date, and the instant in seconds and nanoseconds.
#[derive(Debug, Clone, Copy)]
pub struct LocalNow {
    pub year: i32,
    pub month: u32,
    pub day: u32,
    pub secs: i64,
    pub nanos: u32,
}

/// The instants, in seconds, at which the local clock shows a time. When it is put back it shows
/// some times twice, when it is put forward it leaves some out.
#[derive(Debug, Clone, Copy, PartialEq, Eq, Structural)]
pub enum Resolved {
    Once(i64),
    Twice(i64, i64),
    Never,
    /// There is no such date.
    NoDate,
}

/// The year has a 29th of February.
pub open spec fn is_leap(year: int) -> bool {
    year % 4 == 0 && (year % 100 != 0 || year % 400 == 0)
}

/// How many days a month has.
pub open spec fn days_in(year: int, month: int) -> int {
    if month == 2 {
        if is_leap(year) {
            29
        } else {
            28
        }
    } else if month == 4 || month == 6 || month == 9 || month == 11 {
        30
    } else {
        31
    }
}

/// How many days of a year lie before a month.
pub open spec fn days_before(year: int, month: int) -> int
    decreases month,
{
    if month <= 1 {
        0
    } else {
        days_before(year, month - 1) + days_in(year, month - 1)
    }
}

impl LocalNow {
    /// The date is one of the Gregorian calendar.
    pub open spec fn has_date(self) -> bool {
        1 <= self.month <= 12 && 1 <= self.day <= days_in(self.year as int, self.month as int)
    }

    /// The days from the first of January 1970 to the date. That day is number 719163 of those
    /// from the beginning of the year 1 on.
    pub open spec fn day_number(self) -> int {
        let past = self.year - 1;
        365 * past + past / 4 - past / 100 + past / 400 + days_before(
            self.year as int,
            self.month as int,
        ) + self.day - 719_163
    }

    /// A clock can show this: the date is that of the instant, seen from a place where the clock
    /// goes less than a day before or behind the universal time.
    pub open spec fn shown(self) -> bool {
        self.has_date() && -86_400 < self.secs - 86_400 * self.day_number() < 172_800
    }

    /// The seconds from the beginning of 1970 to `clock` and `minutes` more, `days` after the date,
    /// by a clock of the universal time.
    pub open spec fn wall(self, days: int, clock: Clock, minutes: int) -> int {
        86_400 * (self.day_number() + days) + 3_600 * clock.hour + 60 * (clock.minute + minutes)
    }

    /// A place can have this answer to when its clock shows `clock` and `minutes` more, `days`
    /// after the date. Its clock goes less than a day before or behind the universal time. A day of
    /// the calendar is missing only where the years end, which are those from -262143 to 262142.
    pub open spec fn may_resolve(self, days: int, clock: Clock, minutes: int, r: Resolved) -> bool {
        match r {
            Resolved::Once(t) => self.has_date() && clock.in_day() && -86_400 < self.wall(
                days,
                clock,
                minutes,
            ) - t < 86_400,
            Resolved::Twice(a, b) => self.has_date() && clock.in_day() && -86_400 < self.wall(
                days,
                clock,
                minutes,
            ) - a < 86_400 && -86_400 < self.wall(days, clock, minutes) - b < 86_400,
            Resolved::Never => self.has_date() && clock.in_day(),
            Resolved::NoDate => !(self.has_date() && clock.in_day() && -262_143 <= self.year
                < 262_142),
        }
    }
}

/// An answer; none is that there is no such date.
pub open spec fn answer_of(r: Option<Resolved>) -> Resolved {
    match r {
        Some(x) => x,
        None => Resolved::NoDate,
    }
}

/// Reads the clock and the time zone of the machine with `chrono::Local::now`. The date is one of
/// the calendar, and it is that of the instant, moved by an offset of less than a day. The instant
/// and the offset depend on the machine, so nothing is claimed of them.
#[verifier::external_body]
fn local_now() -> (r: LocalNow)
    ensures
        r.shown(),
{
    let now = chrono::Local::now();
    LocalNow {
        year: chrono::Datelike::year(&now),
        month: chrono::Datelike::month(&now),
        day: chrono::Datelike::day(&now),
        secs: now.timestamp(),
        nanos: now.timestamp_subsec_nanos(),
    }
}

/// Asks `chrono::Local` for the instants at which the local clock shows the time that lies
/// `add_minutes` after `clock`, on the day that lies `days` after the date of `now`; `None` if
/// there is no such day or time of day (`NaiveDate::from_ymd_opt`, `checked_add_days`,
/// `and_hms_opt`), and that only if one of them is not valid or the years of `NaiveDate` end. An
/// instant lies less than a day from where a clock of the universal time shows the same, for that
/// is how far a `FixedOffset` goes. Which instants these are, and whether there are any, depends on
/// the time zone of the machine, so no more is claimed.
#[verifier::external_body]
fn resolve_local(now: LocalNow, days: u64, clock: Clock, add_minutes: i64) -> (r: Option<Resolved>)
    requires
        days <= 1,
        0 <= add_minutes <= 120,
    ensures
        now.may_resolve(days as int, clock, add_minutes as int, answer_of(r)),
{
    let today = chrono::NaiveDate::from_ymd_opt(now.year, now.month, now.day)?;
    let date = today.checked_add_days(chrono::Days::new(days))?;
    let time = date.and_hms_opt(clock.hour, clock.minute, 0)?;
    let moved = time.checked_add_signed(chrono::TimeDelta::minutes(add_minutes))?;
    match chrono::TimeZone::from_local_datetime(&chrono::Local, &moved) {
        chrono::LocalResult::Single(x) => Some(Resolved::Once(x.timestamp())),
        chrono::LocalResult::Ambiguous(a, b) => Some(
            Resolved::Twice(a.timestamp(), b.timestamp()),
        ),
        chrono::LocalResult::None => Some(Resolved::Never),
    }
}

/// The earlier instant of a time that the clock shows.
pub open spec fn instant_of(r: Resolved) -> Option<i64> {
    match r {
        Resolved::Once(t) => Some(t),
        Resolved::Twice(a, b) => Some(if a <= b {
            a
        } else {
            b
        }),
        _ => None,
    }
}

/// The instant of the first time that the clock shows, from `i` on.
pub open spec fn first_instant(tried: Seq<Resolved>, i: int) -> Option<i64>
    decreases tried.len() - i,
{
    if !(0 <= i < tried.len()) {
        None
    } else if instant_of(tried[i]) is Some {
        instant_of(tried[i])
    } else {
        first_instant(tried, i + 1)
    }
}

/// The instant that is meant, after the times that were tried in turn. `no_date` is the error for
/// a day that does not exist.
pub open spec fn target_of(tried: Seq<Resolved>, no_date: UntilError) -> Result<i64, UntilError> {
    if tried.len() > 0 && tried[0] == Resolved::NoDate {
        Err(no_date)
    } else {
        match first_instant(tried, 0) {
            Some(t) => Ok(t),
            None => Err(UntilError::NoSuchTime),
        }
    }
}

impl LocalNow {
    /// The instant in nanoseconds.
    pub open spec fn instant_ns(self) -> int {
        self.secs * 1_000_000_000 + self.nanos
    }
}

/// Whole milliseconds from now until an instant; none if it has passed.
pub open spec fn wait_ms(now: LocalNow, target: i64) -> Result<u64, UntilError> {
    let ns = target * 1_000_000_000 - now.instant_ns();
    if ns <= 0 {
        Ok(0)
    } else if ns / 1_000_000 > u64::MAX {
        Err(UntilError::TooLarge)
    } else {
        Ok((ns / 1_000_000) as u64)
    }
}

/// How long it is until the time of day: until today's, or if that is not to come, until
/// tomorrow's.
pub open spec fn until_wait(now: LocalNow, today: Seq<Resolved>, tomorrow: Seq<Resolved>) -> Result<
    u64,
    UntilError,
> {
    match target_of(today, UntilError::NoDate) {
        Err(e) => Err(e),
        Ok(t) => if t * 1_000_000_000 > now.instant_ns() {
            wait_ms(now, t)
        } else {
            match target_of(tomorrow, UntilError::NoTomorrow) {
                Err(e) => Err(e),
                Ok(u) => wait_ms(now, u),
            }
        },
    }
}

fn resolved_instant(r: &Resolved) -> (i: Option<i64>)
    ensures
        i == instant_of(*r),
{
    match r {
        Resolved::Once(t) => Some(*t),
        Resolved::Twice(a, b) => if *a <= *b {
            Some(*a)
        } else {
            Some(*b)
        },
        _ => None,
    }
}

fn pick_target(tried: &Vec<Resolved>, no_date: UntilError) -> (r: Result<i64, UntilError>)
    ensures
        r == target_of(tried@, no_date),
{
    if tried.len() > 0 && tried[0] == Resolved::NoDate {
        return Err(no_date);
    }
    for i in 0..tried.len()
        invariant
            !(tried@.len() > 0 && tried@[0] == Resolved::NoDate),
            first_instant(tried@, 0) == first_instant(tried@, i as int),
    {
        if let Some(t) = resolved_instant(&tried[i]) {
            return Ok(t);
        }
    }
    Err(UntilError::NoSuchTime)
}

fn wait_until(now: &LocalNow, target: i64) -> (r: Result<u64, UntilError>)
    ensures
        r == wait_ms(*now, target),
{
    let ns: i128 = (target as i128) * 1_000_000_000 - ((now.secs as i128) * 1_000_000_000
        + now.nanos as i128);
    if ns <= 0 {
        return Ok(0);
    }
    let ms: i128 = ns / 1_000_000;
    if ms > u64::MAX as i128 {
        Err(UntilError::TooLarge)
    } else {
        Ok(ms as u64)
    }
}

/// How long it is until the time of day, after the times that were tried for today and for
/// tomorrow.
pub fn until_ms(now: &LocalNow, today: &Vec<Resolved>, tomorrow: &Vec<Resolved>) -> (r: Result<
    u64,
    UntilError,
>)
    ensures
        r == until_wait(*now, today@, tomorrow@),
{
    match pick_target(today, UntilError::NoDate) {
        Err(e) => Err(e),
        Ok(t) => {
            let now_ns: i128 = (now.secs as i128) * 1_000_000_000 + now.nanos as i128;
            if (t as i128) * 1_000_000_000 > now_ns {
                wait_until(now, t)
            } else {
                match pick_target(tomorrow, UntilError::NoTomorrow) {
                    Err(e) => Err(e),
                    Ok(u) => wait_until(now, u),
                }
            }
        },
    }
}

impl LocalNow {
    /// A place can have these answers for a day: to when its clock shows the time of day, and
    /// while it shows none of them, to each minute of the two hours behind it.
    pub open spec fn may_try(self, days: int, clock: Clock, tried: Seq<Resolved>) -> bool {
        &&& 1 <= tried.len() <= 121
        &&& forall|i: int| 0 <= i < tried.len() - 1 ==> instant_of(#[trigger] tried[i]) is None
        &&& tried.len() < 121 ==> instant_of(tried.last()) is Some
        &&& forall|i: int|
            0 <= i < tried.len() ==> self.may_resolve(days, clock, i, #[trigger] tried[i])
    }

    /// A place where the clock shows this can have these answers for today and for tomorrow.
    pub open spec fn may_answer(
        self,
        clock: Clock,
        today: Seq<Resolved>,
        tomorrow: Seq<Resolved>,
    ) -> bool {
        self.shown() && self.may_try(0, clock, today) && self.may_try(1, clock, tomorrow)
    }
}

/// The first instant of the answers is that of one of them.
proof fn first_instant_is_tried(tried: Seq<Resolved>, i: int)
    requires
        0 <= i,
    ensures
        first_instant(tried, i) matches Some(t) ==> exists|k: int|
            i <= k < tried.len() && instant_of(#[trigger] tried[k]) == Some(t),
    decreases tried.len() - i,
{
    if i < tried.len() && instant_of(tried[i]) is None {
        first_instant_is_tried(tried, i + 1);
    }
}

/// The instant that is meant lies less than a day from the time of day, or from the two hours
/// behind it, as a universal clock shows them.
proof fn target_is_near(now: LocalNow, days: int, clock: Clock, tried: Seq<Resolved>, e: UntilError)
    requires
        now.may_try(days, clock, tried),
    ensures
        target_of(tried, e) matches Ok(t) ==> -86_400 < t - now.wall(days, clock, 0) < 93_600,
        target_of(tried, e) matches Err(x) ==> x == e || x == UntilError::NoSuchTime,
        clock.in_day() && now.has_date() && -262_143 <= now.year < 262_142 ==> (target_of(
            tried,
            e,
        ) matches Err(x) ==> x == UntilError::NoSuchTime),
{
    assert(now.may_resolve(days, clock, 0, tried[0]));
    first_instant_is_tried(tried, 0);
    if let Some(t) = first_instant(tried, 0) {
        let k = choose|k: int| 0 <= k < tried.len() && instant_of(#[trigger] tried[k]) == Some(t);
        assert(now.may_resolve(days, clock, k, tried[k]));
    }
}

/// Wherever the clock shows a time of day, it does so in less than four days and two hours. A date
/// is missing only where the years of the calendar end.
pub proof fn wait_is_short(
    now: LocalNow,
    clock: Clock,
    today: Seq<Resolved>,
    tomorrow: Seq<Resolved>,
)
    requires
        now.may_answer(clock, today, tomorrow),
    ensures
        until_wait(now, today, tomorrow) matches Ok(ms) ==> ms < (4 * 24 + 2) * 3_600_000,
        until_wait(now, today, tomorrow) matches Err(e) ==> e == UntilError::NoSuchTime || e
            == UntilError::NoDate || e == UntilError::NoTomorrow,
        clock.in_day() && -262_143 <= now.year < 262_142 ==> (until_wait(
            now,
            today,
            tomorrow,
        ) matches Err(e) ==> e == UntilError::NoSuchTime),
{
    target_is_near(now, 0, clock, today, UntilError::NoDate);
    target_is_near(now, 1, clock, tomorrow, UntilError::NoTomorrow);
}

/// The times that were tried for a day: the time of day, and while the clock shows none of them,
/// each minute of the two hours behind it.
fn try_local(now: LocalNow, days: u64, clock: Clock) -> (r: Vec<Resolved>)
    requires
        days <= 1,
    ensures
        now.may_try(days as int, clock, r@),
{
    let mut tried: Vec<Resolved> = Vec::new();
    let mut add: i64 = 0;
    while add <= 120
        invariant
            days <= 1,
            0 <= add <= 121,
            tried@.len() == add,
            forall|i: int| 0 <= i < tried@.len() ==> instant_of(#[trigger] tried@[i]) is None,
            forall|i: int|
                0 <= i < tried@.len() ==> now.may_resolve(
                    days as int,
                    clock,
                    i,
                    #[trigger] tried@[i],
                ),
        decreases 121 - add,
    {
        let r = match resolve_local(now, days, clock, add) {
            Some(r) => r,
            None => Resolved::NoDate,
        };
        tried.push(r);
        if resolved_instant(&r).is_some() {
            return tried;
        }
        add += 1;
    }
    tried
}

/// How long it is from now until a time of day by the local clock. What the clock shows now, and
/// whether it shows the time today or tomorrow, or within two hours behind it, is for the machine
/// to say. Whatever it says, the wait is the one that `until_ms` makes of it.
pub fn until_from_now(clock: Clock) -> (r: Result<u64, UntilError>)
    ensures
        !clock.in_day() <==> r == Err::<u64, _>(UntilError::BadTime),
        clock.in_day() ==> exists|now: LocalNow, today: Seq<Resolved>, tomorrow: Seq<Resolved>|
            #[trigger] now.may_answer(clock, today, tomorrow) && r == until_wait(
                now,
                today,
                tomorrow,
            ),
        r matches Ok(ms) ==> ms < (4 * 24 + 2) * 3_600_000,
        clock.in_day() ==> (r matches Err(e) ==> e == UntilError::NoDate || e
            == UntilError::NoTomorrow || e == UntilError::NoSuchTime),
{
    if clock.hour >= 24 || clock.minute >= 60 {
        return Err(UntilError::BadTime);
    }
    let now = local_now();
    let today = try_local(now, 0, clock);
    let tomorrow = try_local(now, 1, clock);
    proof {
        assert(now.may_answer(clock, today@, tomorrow@));
        wait_is_short(now, clock, today@, tomorrow@);
    }
    until_ms(&now, &today, &tomorrow)
}

/// The wait for an instant that is to come is the time until then, without the last part of a
/// millisecond.
pub proof fn wait_is_the_rest(now: LocalNow, target: i64)
    requires
        target * 1_000_000_000 >= now.instant_ns(),
    ensures
        wait_ms(now, target) matches Ok(ms) ==> ms * 1_000_000 <= target * 1_000_000_000
            - now.instant_ns() < (ms + 1) * 1_000_000,
{
}

} // verus!
