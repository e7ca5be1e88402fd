//! Readings of the UTC wall clock and the time stamps derived from them.
//!
//! A [`Moment`] holds a calendar date and a time of day as plain numbers.
//! The library does not read the clock: the caller does, and hands the
//! reading to [`Moment::new`], which accepts what names a second of the
//! calendar. Stamps are the texts that name the hour or the day a moment falls in; the
//! rendering itself is done by the `chrono` crate, and this module states
//! what chrono writes and proves that a stamp identifies its window.

use vstd::prelude::*;

verus! {

/// The earliest year a [`Moment`] can hold.
pub const MIN_YEAR: i32 = -262143;

/// The latest year a [`Moment`] can hold.
pub const MAX_YEAR: i32 = 262142;

/// The staleness granularity of a cache namespace.
#[derive(Clone, Copy, Debug, PartialEq, Eq, Structural)]
pub enum Granularity {
    /// A record is fresh until the next full hour.
    Hourly,
    /// A record is fresh until the next calendar day.
    Daily,
}

/// Whether `year` is a leap year of the proleptic Gregorian calendar.
pub open spec fn is_leap_year(year: int) -> bool {
    (year % 4 == 0 && year % 100 != 0) || year % 400 == 0
}

/// The number of days of `month` in `year`; 0 where `month` is no month.
pub open spec fn days_in_month(year: int, month: int) -> int {
    if month == 2 {
        if is_leap_year(year) {
            29
        } else {
            28
        }
    } else if month == 4 || month == 6 || month == 9 || month == 11 {
        30
    } else if 1 <= month <= 12 {
        31
    } else {
        0
    }
}

/// Whether the six numbers name a second of the proleptic Gregorian
/// calendar that a [`Moment`] can hold.
pub open spec fn is_clock_reading(
    year: int,
    month: int,
    day: int,
    hour: int,
    minute: int,
    second: int,
) -> bool {
    &&& MIN_YEAR <= year <= MAX_YEAR
    &&& 1 <= month <= 12
    &&& 1 <= day <= days_in_month(year, month)
    &&& 0 <= hour < 24
    &&& 0 <= minute < 60
    &&& 0 <= second < 60
}

/// A reading of the UTC wall clock, to the second.
#[derive(Clone, Copy, Debug, PartialEq, Eq)]
pub struct Moment {
    year: i32,
    month: u32,
    day: u32,
    hour: u32,
    minute: u32,
    second: u32,
}

impl Moment {
    /// The calendar year.
    pub closed spec fn spec_year(&self) -> i32 {
        self.year
    }

    /// The month of the year, from 1.
    pub closed spec fn spec_month(&self) -> u32 {
        self.month
    }

    /// The day of the month, from 1.
    pub closed spec fn spec_day(&self) -> u32 {
        self.day
    }

    /// The hour of the day, from 0.
    pub closed spec fn spec_hour(&self) -> u32 {
        self.hour
    }

    /// The minute of the hour.
    pub closed spec fn spec_minute(&self) -> u32 {
        self.minute
    }

    /// The second of the minute.
    pub closed spec fn spec_second(&self) -> u32 {
        self.second
    }

    /// Whether the moment holds the given fields.
    pub open spec fn holds(
        &self,
        year: i32,
        month: u32,
        day: u32,
        hour: u32,
        minute: u32,
        second: u32,
    ) -> bool {
        &&& self.spec_year() == year
        &&& self.spec_month() == month
        &&& self.spec_day() == day
        &&& self.spec_hour() == hour
        &&& self.spec_minute() == minute
        &&& self.spec_second() == second
    }

    /// Every moment names a second that exists.
    #[verifier::type_invariant]
    pub closed spec fn valid(self) -> bool {
        is_clock_reading(
            self.year as int,
            self.month as int,
            self.day as int,
            self.hour as int,
            self.minute as int,
            self.second as int,
        )
    }

    /// Unfolds [`Moment::valid`] over the accessors.
    pub proof fn lemma_valid(self)
        requires
            self.valid(),
        ensures
            is_clock_reading(
                self.spec_year() as int,
                self.spec_month() as int,
                self.spec_day() as int,
                self.spec_hour() as int,
                self.spec_minute() as int,
                self.spec_second() as int,
            ),
    {
    }

    /// The moment with the given fields, or `None` where they name no
    /// second of the calendar.
    pub fn new(year: i32, month: u32, day: u32, hour: u32, minute: u32, second: u32) -> (made:
        Option<Moment>)
        ensures
            made is Some <==> is_clock_reading(
                year as int,
                month as int,
                day as int,
                hour as int,
                minute as int,
                second as int,
            ),
            made matches Some(m) ==> m.valid() && m.holds(year, month, day, hour, minute, second),
    {
        if year < MIN_YEAR || year > MAX_YEAR || month < 1 || month > 12 {
            return None;
        }
        if day < 1 || day > month_length(year, month) {
            return None;
        }
        if hour >= 24 || minute >= 60 || second >= 60 {
            return None;
        }
        Some(Moment { year, month, day, hour, minute, second })
    }

    /// The calendar year.
    #[verifier::when_used_as_spec(spec_year)]
    pub fn year(&self) -> (y: i32)
        ensures
            y == self.spec_year(),
    {
        self.year
    }

    /// The month of the year, from 1.
    #[verifier::when_used_as_spec(spec_month)]
    pub fn month(&self) -> (m: u32)
        ensures
            m == self.spec_month(),
    {
        self.month
    }

    /// The day of the month, from 1.
    #[verifier::when_used_as_spec(spec_day)]
    pub fn day(&self) -> (d: u32)
        ensures
            d == self.spec_day(),
    {
        self.day
    }

    /// The hour of the day, from 0.
    #[verifier::when_used_as_spec(spec_hour)]
    pub fn hour(&self) -> (h: u32)
        ensures
            h == self.spec_hour(),
    {
        self.hour
    }

    /// The minute of the hour.
    #[verifier::when_used_as_spec(spec_minute)]
    pub fn minute(&self) -> (m: u32)
        ensures
            m == self.spec_minute(),
    {
        self.minute
    }

    /// The second of the minute.
    #[verifier::when_used_as_spec(spec_second)]
    pub fn second(&self) -> (s: u32)
        ensures
            s == self.spec_second(),
    {
        self.second
    }
}

/// The character that writes the decimal digit `d`.
pub open spec fn digit(d: int) -> char {
    (d + 48) as char
}

/// The last `width` decimal digits of `n`, the most significant first.
pub open spec fn digits(n: int, width: nat) -> Seq<char>
    decreases width,
{
    if width == 0 {
        Seq::empty()
    } else {
        digits(n / 10, (width - 1) as nat).push(digit(n % 10))
    }
}

/// The number of digits a year of the given magnitude is written with: at
/// least four.
pub open spec fn year_width(magnitude: int) -> nat {
    if magnitude <= 9999 {
        4
    } else if magnitude <= 99999 {
        5
    } else {
        6
    }
}

/// A year as a stamp writes it: four digits from 0 to 9999, and a sign
/// before the digits of every other year.
pub open spec fn year_text(year: int) -> Seq<char> {
    if 0 <= year <= 9999 {
        digits(year, 4)
    } else if year > 9999 {
        seq!['+'] + digits(year, year_width(year))
    } else {
        seq!['-'] + digits(-year, year_width(-year))
    }
}

/// The stamp of the day `t` falls in: day, month and year.
pub open spec fn day_stamp(t: Moment) -> Seq<char> {
    digits(t.day() as int, 2) + digits(t.month() as int, 2) + year_text(t.year() as int)
}

/// The stamp of the hour `t` falls in: the hour, two zeros, then the stamp
/// of the day.
pub open spec fn hour_stamp(t: Moment) -> Seq<char> {
    digits(t.hour() as int, 2) + seq!['0', '0'] + day_stamp(t)
}

/// The stamp of the window of `t` at the given granularity.
pub open spec fn stamp(granularity: Granularity, t: Moment) -> Seq<char> {
    match granularity {
        Granularity::Hourly => hour_stamp(t),
        Granularity::Daily => day_stamp(t),
    }
}

/// The window `t` falls in: its year, month and day, and at hourly
/// granularity its hour.
pub open spec fn window(granularity: Granularity, t: Moment) -> (int, int, int, int) {
    (
        t.year() as int,
        t.month() as int,
        t.day() as int,
        match granularity {
            Granularity::Hourly => t.hour() as int,
            Granularity::Daily => 0,
        },
    )
}

/// The chrono format string that writes the stamp of a granularity.
pub open spec fn pattern_text(granularity: Granularity) -> Seq<char> {
    match granularity {
        Granularity::Hourly => "%H00%d%m%Y"@,
        Granularity::Daily => "%d%m%Y"@,
    }
}

impl Granularity {
    /// The chrono format string that writes the stamp of this granularity.
    pub fn pattern(&self) -> (pattern: &'static str)
        ensures
            pattern@ == pattern_text(*self),
    {
        match self {
            Granularity::Hourly => "%H00%d%m%Y",
            Granularity::Daily => "%d%m%Y",
        }
    }
}

/// The stamp of the window `now` falls in.
pub fn get_date_formatted(now: &Moment, granularity: Granularity) -> (text: String)
    ensures
        text@ == stamp(granularity, *now),
{
    chrono_format(now, granularity.pattern())
}

/// Ten to the power of `width`.
pub open spec fn pow10(width: nat) -> int
    decreases width,
{
    if width == 0 {
        1
    } else {
        10 * pow10((width - 1) as nat)
    }
}

/// Numbers below `pow10(width)` that are written alike with `width` digits
/// are the same number.
proof fn lemma_digits_identify(a: int, b: int, width: nat)
    requires
        0 <= a < pow10(width),
        0 <= b < pow10(width),
        digits(a, width) == digits(b, width),
    ensures
        a == b,
    decreases width,
{
    if width > 0 {
        let high_a = digits(a / 10, (width - 1) as nat);
        let high_b = digits(b / 10, (width - 1) as nat);
        assert(high_a.push(digit(a % 10)).last() == digit(a % 10));
        assert(high_b.push(digit(b % 10)).last() == digit(b % 10));
        assert(high_a.push(digit(a % 10)).drop_last() =~= high_a);
        assert(high_b.push(digit(b % 10)).drop_last() =~= high_b);
        lemma_digits_identify(a / 10, b / 10, (width - 1) as nat);
    }
}

/// `digits` writes exactly `width` characters, each a decimal digit.
proof fn lemma_digits_shape(n: int, width: nat)
    requires
        0 <= n,
    ensures
        digits(n, width).len() == width,
        forall|i: int| 0 <= i < width ==> '0' <= #[trigger] digits(n, width)[i] <= '9',
    decreases width,
{
    if width > 0 {
        lemma_digits_shape(n / 10, (width - 1) as nat);
    }
}

/// Years written alike are the same year.
pub proof fn lemma_year_text(a: int, b: int)
    requires
        MIN_YEAR <= a <= MAX_YEAR,
        MIN_YEAR <= b <= MAX_YEAR,
        year_text(a) == year_text(b),
    ensures
        a == b,
{
    let ma = if a < 0 { -a } else { a };
    let mb = if b < 0 { -b } else { b };
    let wa = year_width(ma);
    let wb = year_width(mb);
    lemma_digits_shape(ma, wa);
    lemma_digits_shape(mb, wb);
    lemma_digits_shape(ma, 4);
    lemma_digits_shape(mb, 4);
    let sa = year_text(a);
    let sb = year_text(b);
    reveal_with_fuel(pow10, 7);
    if 0 <= a <= 9999 {
        assert(sa[0] == digits(a, 4)[0]);
        if 0 <= b <= 9999 {
            lemma_digits_identify(a, b, 4);
        } else {
            assert(sb[0] == '+' || sb[0] == '-');
        }
    } else {
        assert(sa[0] == '+' || sa[0] == '-');
        if 0 <= b <= 9999 {
            assert(sb[0] == digits(b, 4)[0]);
        } else {
            assert(sa[0] == sb[0]);
            assert(sa.len() == wa + 1);
            assert(sb.len() == wb + 1);
            assert(sa.subrange(1, sa.len() as int) =~= digits(ma, wa));
            assert(sb.subrange(1, sb.len() as int) =~= digits(mb, wb));
            lemma_digits_identify(ma, mb, wa);
        }
    }
}

/// Two moments get the same stamp exactly when they fall in the same
/// window: stamps are stable within a window and differ across windows.
pub proof fn lemma_stamp_identifies_window(granularity: Granularity, t1: Moment, t2: Moment)
    requires
        t1.valid(),
        t2.valid(),
    ensures
        stamp(granularity, t1) == stamp(granularity, t2) <==> window(granularity, t1) == window(
            granularity,
            t2,
        ),
{
    t1.lemma_valid();
    t2.lemma_valid();
    reveal_with_fuel(pow10, 3);
    if stamp(granularity, t1) == stamp(granularity, t2) {
        let d1 = day_stamp(t1);
        let d2 = day_stamp(t2);
        lemma_digits_shape(t1.hour() as int, 2);
        lemma_digits_shape(t2.hour() as int, 2);
        lemma_digits_shape(t1.day() as int, 2);
        lemma_digits_shape(t2.day() as int, 2);
        lemma_digits_shape(t1.month() as int, 2);
        lemma_digits_shape(t2.month() as int, 2);
        if granularity == Granularity::Hourly {
            let h1 = hour_stamp(t1);
            let h2 = hour_stamp(t2);
            assert(h1.subrange(0, 2) =~= digits(t1.hour() as int, 2));
            assert(h2.subrange(0, 2) =~= digits(t2.hour() as int, 2));
            lemma_digits_identify(t1.hour() as int, t2.hour() as int, 2);
            assert(h1.subrange(4, h1.len() as int) =~= d1);
            assert(h2.subrange(4, h2.len() as int) =~= d2);
        }
        assert(d1 == d2);
        assert(d1.subrange(0, 2) =~= digits(t1.day() as int, 2));
        assert(d2.subrange(0, 2) =~= digits(t2.day() as int, 2));
        lemma_digits_identify(t1.day() as int, t2.day() as int, 2);
        assert(d1.subrange(2, 4) =~= digits(t1.month() as int, 2));
        assert(d2.subrange(2, 4) =~= digits(t2.month() as int, 2));
        lemma_digits_identify(t1.month() as int, t2.month() as int, 2);
        assert(d1.subrange(4, d1.len() as int) =~= year_text(t1.year() as int));
        assert(d2.subrange(4, d2.len() as int) =~= year_text(t2.year() as int));
        lemma_year_text(t1.year() as int, t2.year() as int);
    }
}

/// The number of days of `month` in `year`.
fn month_length(year: i32, month: u32) -> (days: u32)
    requires
        1 <= month <= 12,
    ensures
        days == days_in_month(year as int, month as int),
{
    if month == 2 {
        if (year % 4 == 0 && year % 100 != 0) || year % 400 == 0 {
            29
        } else {
            28
        }
    } else if month == 4 || month == 6 || month == 9 || month == 11 {
        30
    } else {
        31
    }
}

/// Renders `at` through chrono's `NaiveDate::from_ymd_opt`,
/// `NaiveDate::and_hms_opt` and `NaiveDateTime::format`. Claimed of chrono:
/// `%H`, `%d` and `%m` write hour, day and month with two digits, and `%Y`
/// writes the year with four digits from 0 to 9999 and otherwise with a
/// sign before at least four digits; every other character of the two
/// patterns is copied. A [`Moment`] names a second that exists, so neither
/// constructor fails.
#[verifier::external_body]
fn chrono_format(at: &Moment, pattern: &str) -> (text: String)
    requires
        pattern@ == pattern_text(Granularity::Hourly) || pattern@ == pattern_text(
            Granularity::Daily,
        ),
    ensures
        pattern@ == pattern_text(Granularity::Hourly) ==> text@ == hour_stamp(*at),
        pattern@ == pattern_text(Granularity::Daily) ==> text@ == day_stamp(*at),
{
    chrono::NaiveDate::from_ymd_opt(at.year, at.month, at.day)
        .unwrap()
        .and_hms_opt(at.hour, at.minute, at.second)
        .unwrap()
        .format(pattern)
        .to_string()
}

} // verus!
