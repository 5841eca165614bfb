//! Dates and times of day in UTC.

use vstd::prelude::*;

use crate::number::{decimal, digit_char, pad_left, padded_left, to_decimal};
use crate::order::{is_before, lemma_parts_decide};
use crate::text::Text;

verus! {

// ---------------------------------------------------------------------------------------------
// The calendar
// ---------------------------------------------------------------------------------------------

/// A day of the Gregorian calendar.
pub struct Date {
    pub year: nat,
    pub month: nat,
    pub day: nat,
}

pub open spec fn is_leap(year: nat) -> bool {
    year % 4 == 0 && (year % 100 != 0 || year % 400 == 0)
}

pub open spec fn days_of_month(year: nat, month: nat) -> nat {
    if month == 2 {
        if is_leap(year) {
            29
        } else {
            28
        }
    } else if month == 4 || month == 6 || month == 9 || month == 11 {
        30
    } else {
        31
    }
}

/// The day after a day.
pub open spec fn next_day(date: Date) -> Date {
    if date.day < days_of_month(date.year, date.month) {
        Date { day: date.day + 1, ..date }
    } else if date.month < 12 {
        Date { year: date.year, month: date.month + 1, day: 1 }
    } else {
        Date { year: date.year + 1, month: 1, day: 1 }
    }
}

/// The day that lies some days after the first of January 1970.
pub open spec fn date_of(days: nat) -> Date
    decreases days,
{
    if days == 0 {
        Date { year: 1970, month: 1, day: 1 }
    } else {
        next_day(date_of((days - 1) as nat))
    }
}

// ---------------------------------------------------------------------------------------------
// Counting days
// ---------------------------------------------------------------------------------------------

/// The number of leap years among the years from 1 to a year.
spec fn leaps(year: int) -> int {
    year / 4 - year / 100 + year / 400
}

/// The days from the first of January 1970 to the first of January of a year.
spec fn days_to_year(year: int) -> int {
    365 * (year - 1970) + leaps(year - 1) - 477
}

/// The days of a year before a month.
spec fn days_to_month(year: nat, month: nat) -> nat
    decreases month,
{
    if month <= 1 {
        0
    } else {
        days_to_month(year, (month - 1) as nat) + days_of_month(year, (month - 1) as nat)
    }
}

spec fn is_valid(date: Date) -> bool {
    &&& date.year >= 1970
    &&& 1 <= date.month <= 12
    &&& 1 <= date.day <= days_of_month(date.year, date.month)
}

/// The days from the first of January 1970 to a day.
spec fn days_to(date: Date) -> int {
    days_to_year(date.year as int) + days_to_month(date.year, date.month) + date.day - 1
}

proof fn lemma_leap_step(year: nat)
    requires
        year >= 1,
    ensures
        leaps(year as int) == leaps(year - 1) + (if is_leap(year) {
            1int
        } else {
            0int
        }),
{
    let y = year as int;
    assert(y / 4 == (y - 1) / 4 + (if y % 4 == 0 {
        1int
    } else {
        0int
    }));
    assert(y / 100 == (y - 1) / 100 + (if y % 100 == 0 {
        1int
    } else {
        0int
    }));
    assert(y / 400 == (y - 1) / 400 + (if y % 400 == 0 {
        1int
    } else {
        0int
    }));
    assert(y % 400 == 0 ==> y % 100 == 0);
    assert(y % 100 == 0 ==> y % 4 == 0);
}

proof fn lemma_year_length(year: nat)
    ensures
        days_to_month(year, 12) + 31 == 365 + (if is_leap(year) {
            1int
        } else {
            0int
        }),
        days_to_month(year, 1) == 0,
        days_to_month(year, 2) == 31,
        days_to_month(year, 3) == 59 + (if is_leap(year) {
            1int
        } else {
            0int
        }),
        days_to_month(year, 4) == days_to_month(year, 3) + 31,
        days_to_month(year, 5) == days_to_month(year, 3) + 61,
        days_to_month(year, 6) == days_to_month(year, 3) + 92,
        days_to_month(year, 7) == days_to_month(year, 3) + 122,
        days_to_month(year, 8) == days_to_month(year, 3) + 153,
        days_to_month(year, 9) == days_to_month(year, 3) + 184,
        days_to_month(year, 10) == days_to_month(year, 3) + 214,
        days_to_month(year, 11) == days_to_month(year, 3) + 245,
        days_to_month(year, 12) == days_to_month(year, 3) + 275,
{
    reveal_with_fuel(days_to_month, 13);
}

proof fn lemma_next_day(date: Date)
    requires
        is_valid(date),
    ensures
        is_valid(next_day(date)),
        days_to(next_day(date)) == days_to(date) + 1,
{
    lemma_year_length(date.year);
    lemma_leap_step(date.year);
    if date.day >= days_of_month(date.year, date.month) && date.month == 12 {
        assert(days_to_year(date.year as int + 1) == days_to_year(date.year as int) + 365 + (if is_leap(
            date.year,
        ) {
            1int
        } else {
            0int
        }));
        lemma_year_length(date.year + 1);
    }
}

proof fn lemma_date_of(days: nat)
    ensures
        is_valid(date_of(days)),
        days_to(date_of(days)) == days,
    decreases days,
{
    if days == 0 {
        lemma_year_length(1970);
        assert(leaps(1969) == 477);
    } else {
        lemma_date_of((days - 1) as nat);
        lemma_next_day(date_of((days - 1) as nat));
    }
}

proof fn lemma_leaps_grow(a: nat, b: nat)
    requires
        a <= b,
    ensures
        leaps(a as int) <= leaps(b as int),
    decreases b,
{
    if a < b {
        lemma_leaps_grow(a, (b - 1) as nat);
        lemma_leap_step(b);
    }
}

proof fn lemma_months_grow(year: nat, a: nat, b: nat)
    requires
        1 <= a < b,
    ensures
        days_to_month(year, a) + days_of_month(year, a) <= days_to_month(year, b),
    decreases b,
{
    if a + 1 < b {
        lemma_months_grow(year, a, (b - 1) as nat);
    }
}

/// A day that comes before another counts fewer days.
proof fn lemma_days_grow(a: Date, b: Date)
    requires
        is_valid(a),
        is_valid(b),
        a.year < b.year || (a.year == b.year && (a.month < b.month || (a.month == b.month && a.day
            < b.day))),
    ensures
        days_to(a) < days_to(b),
{
    lemma_year_length(a.year);
    if a.year < b.year {
        lemma_leaps_grow(a.year, (b.year - 1) as nat);
        lemma_leap_step(a.year);
        if a.month < 12 {
            lemma_months_grow(a.year, a.month, 12);
        }
    } else if a.month < b.month {
        lemma_months_grow(a.year, a.month, b.month);
    }
}

/// Different days are different numbers of days away from the first of January 1970, so a date
/// tells its day.
pub proof fn law_dates_are_distinct(a: nat, b: nat)
    requires
        date_of(a) == date_of(b),
    ensures
        a == b,
{
    lemma_date_of(a);
    lemma_date_of(b);
}

/// Every date that is counted is one of the calendar: the month is one of twelve, and the day is
/// one of that month.
pub proof fn law_dates_exist(days: nat)
    ensures
        date_of(days).year >= 1970,
        1 <= date_of(days).month <= 12,
        1 <= date_of(days).day <= days_of_month(date_of(days).year, date_of(days).month),
{
    lemma_date_of(days);
}

proof fn lemma_same_day(days: nat, date: Date)
    requires
        is_valid(date),
        days_to(date) == days,
    ensures
        date == date_of(days),
{
    lemma_date_of(days);
    let other = date_of(days);
    if date != other {
        if date.year < other.year || (date.year == other.year && (date.month < other.month || (
        date.month == other.month && date.day < other.day))) {
            lemma_days_grow(date, other);
        } else {
            lemma_days_grow(other, date);
        }
    }
}

/// The years of four centuries before a year of them, counted from March to March.
proof fn lemma_march_year(era: int, century: int, cycle: int, year: int)
    requires
        0 <= era,
        0 <= century <= 3,
        0 <= cycle <= 24,
        0 <= year <= 3,
    ensures
        ({
            let y = 400 * era + 100 * century + 4 * cycle + year;
            365 * y + leaps(y) == 146097 * era + 36524 * century + 1461 * cycle + 365 * year
        }),
{
    let y = 400 * era + 100 * century + 4 * cycle + year;
    assert(y / 4 == 100 * era + 25 * century + cycle);
    assert(y / 100 == 4 * era + century);
    assert(y / 400 == era);
}

/// The year after the last of a cycle of four is a leap year, but for the turn of a century that
/// is not the last of four.
proof fn lemma_cycle_ends_in_leap(era: int, century: int, cycle: int)
    requires
        0 <= era,
        0 <= century <= 3,
        0 <= cycle <= 24,
        cycle < 24 || century == 3,
    ensures
        is_leap((400 * era + 100 * century + 4 * cycle + 4) as nat),
{
    let y = 400 * era + 100 * century + 4 * cycle + 4;
    assert(y % 4 == 0);
    if cycle < 24 {
        assert(y % 100 == 4 * cycle + 4);
    } else {
        assert(y == 400 * (era + 1));
        assert(y % 400 == 0);
    }
}

/// The month and the day within a year that is counted from the first of March, as a number of
/// months and days behind March and its first.
fn month_and_day(day_of_year: u64) -> (r: (u64, u64))
    requires
        day_of_year <= 365,
    ensures
        r.0 <= 11,
        day_of_year == march_days(r.0 as nat) + r.1,
        r.0 < 11 ==> r.1 < march_days(r.0 as nat + 1) - march_days(r.0 as nat),
        r.0 <= 9 <==> day_of_year < 306,
{
    if day_of_year < 31 {
        (0, day_of_year)
    } else if day_of_year < 61 {
        (1, day_of_year - 31)
    } else if day_of_year < 92 {
        (2, day_of_year - 61)
    } else if day_of_year < 122 {
        (3, day_of_year - 92)
    } else if day_of_year < 153 {
        (4, day_of_year - 122)
    } else if day_of_year < 184 {
        (5, day_of_year - 153)
    } else if day_of_year < 214 {
        (6, day_of_year - 184)
    } else if day_of_year < 245 {
        (7, day_of_year - 214)
    } else if day_of_year < 275 {
        (8, day_of_year - 245)
    } else if day_of_year < 306 {
        (9, day_of_year - 275)
    } else if day_of_year < 337 {
        (10, day_of_year - 306)
    } else {
        (11, day_of_year - 337)
    }
}

/// The days from the first of March to the first of a month, counted from March.
spec fn march_days(month: nat) -> int {
    if month == 0 {
        0
    } else if month == 1 {
        31
    } else if month == 2 {
        61
    } else if month == 3 {
        92
    } else if month == 4 {
        122
    } else if month == 5 {
        153
    } else if month == 6 {
        184
    } else if month == 7 {
        214
    } else if month == 8 {
        245
    } else if month == 9 {
        275
    } else if month == 10 {
        306
    } else {
        337
    }
}

fn at_most(n: u64, limit: u64) -> (r: u64)
    ensures
        r == if n < limit {
            n
        } else {
            limit
        },
{
    if n < limit {
        n
    } else {
        limit
    }
}

/// The year, the month and the day that lie `days` days after the first of January 1970.
pub fn civil_date(days: u64) -> (r: (u64, u64, u64))
    requires
        days <= u64::MAX / 86_400,
    ensures
        date_of(days as nat) == (Date { year: r.0 as nat, month: r.1 as nat, day: r.2 as nat }),
        r.1 <= 12,
        r.2 <= 31,
{
    // Years are counted from March, so that a leap day is the last of its year, and in cycles of
    // four hundred years, which are all of the same length.
    let since: u64 = days + 719_468;
    let era: u64 = since / 146_097;
    let day_of_era: u64 = since % 146_097;
    let century: u64 = at_most(day_of_era / 36_524, 3);
    let day_of_century: u64 = day_of_era - 36_524 * century;
    let cycle: u64 = day_of_century / 1_461;
    let day_of_cycle: u64 = day_of_century % 1_461;
    let year_of_cycle: u64 = at_most(day_of_cycle / 365, 3);
    let day_of_year: u64 = day_of_cycle - 365 * year_of_cycle;
    assert(cycle <= 24);
    let march_year: u64 = 400 * era + 100 * century + 4 * cycle + year_of_cycle;
    let (months, rest) = month_and_day(day_of_year);
    let (year, month): (u64, u64) = if months <= 9 {
        (march_year, months + 3)
    } else {
        (march_year + 1, months - 9)
    };
    let day: u64 = rest + 1;
    proof {
        let date = Date { year: year as nat, month: month as nat, day: day as nat };
        lemma_march_year(era as int, century as int, cycle as int, year_of_cycle as int);
        assert(365 * march_year + leaps(march_year as int) + day_of_year == since);
        assert(march_year >= 1969);
        lemma_year_length(year as nat);
        lemma_leap_step(year as nat);
        if day_of_year == 365 {
            assert(year_of_cycle == 3 && day_of_cycle == 1460);
            assert(cycle < 24 || century == 3);
            lemma_cycle_ends_in_leap(era as int, century as int, cycle as int);
        }
        assert(is_valid(date));
        assert(days_to(date) == days);
        lemma_same_day(days as nat, date);
    }
    (year, month, day)
}

// ---------------------------------------------------------------------------------------------
// Texts
// ---------------------------------------------------------------------------------------------

/// A number with leading zeros.
pub open spec fn digits(n: nat, width: nat) -> Text {
    padded_left(decimal(n), '0', width)
}

fn put_digits(out: &mut String, n: u64, width: usize)
    ensures
        final(out)@ == old(out)@ + digits(n as nat, width as nat),
{
    out.append(pad_left(to_decimal(n as u128).as_str(), '0', width).as_str());
}

/// A date and a time of day, with a separator between them.
pub open spec fn moment_text(
    year: nat,
    month: nat,
    day: nat,
    separator: Text,
    hour: nat,
    minute: nat,
    second: nat,
) -> Text {
    digits(year, 4) + "-"@ + digits(month, 2) + "-"@ + digits(day, 2) + separator + digits(hour, 2)
        + ":"@ + digits(minute, 2) + ":"@ + digits(second, 2)
}

fn show_moment(
    year: u64,
    month: u64,
    day: u64,
    separator: &str,
    hour: u64,
    minute: u64,
    second: u64,
) -> (r: String)
    ensures
        r@ == moment_text(
            year as nat,
            month as nat,
            day as nat,
            separator@,
            hour as nat,
            minute as nat,
            second as nat,
        ),
{
    let mut out = pad_left(to_decimal(year as u128).as_str(), '0', 4);
    out.append("-");
    put_digits(&mut out, month, 2);
    out.append("-");
    put_digits(&mut out, day, 2);
    out.append(separator);
    put_digits(&mut out, hour, 2);
    out.append(":");
    put_digits(&mut out, minute, 2);
    out.append(":");
    put_digits(&mut out, second, 2);
    out
}

/// A time in seconds since the first of January 1970, as a date and a time of day in UTC, with a
/// separator between them.
pub open spec fn moment_at(seconds: nat, separator: Text) -> Text {
    let date = date_of(seconds / 86_400);
    let rest = seconds % 86_400;
    moment_text(
        date.year,
        date.month,
        date.day,
        separator,
        rest / 3_600,
        (rest % 3_600) / 60,
        rest % 60,
    )
}

/// A time, without the letter that stands for UTC.
pub open spec fn utc_stem(seconds: nat) -> Text {
    moment_at(seconds, "T"@)
}

fn show_stem(seconds: u64) -> (r: String)
    ensures
        r@ == utc_stem(seconds as nat),
{
    let (year, month, day) = civil_date(seconds / 86_400);
    let rest: u64 = seconds % 86_400;
    show_moment(year, month, day, "T", rest / 3_600, (rest % 3_600) / 60, rest % 60)
}

/// A time in seconds since the first of January 1970, as a date and a time of day in UTC.
pub fn format_unix_utc(seconds: u64) -> (r: String)
    ensures
        r@ == utc_stem(seconds as nat) + "Z"@,
{
    let mut out = show_stem(seconds);
    out.append("Z");
    out
}

/// The number of texts of a number of digits.
spec fn power_of_ten(width: nat) -> nat
    decreases width,
{
    if width == 0 {
        1
    } else {
        10 * power_of_ten((width - 1) as nat)
    }
}

proof fn lemma_padded_push(s: Text, c: char, width: nat)
    requires
        width >= 1,
    ensures
        padded_left(s.push(c), '0', width) == padded_left(s, '0', (width - 1) as nat).push(c),
    decreases width - s.len(),
{
    if s.len() + 1 < width {
        lemma_padded_push(seq!['0'] + s, c, width);
        assert((seq!['0'] + s).push(c) =~= seq!['0'] + s.push(c));
    }
}

/// The digits of a number are those of its tenth and one more.
proof fn lemma_last_digit(n: nat, width: nat)
    requires
        width >= 2,
    ensures
        digits(n, width) == digits(n / 10, (width - 1) as nat).push(digit_char(n % 10)),
{
    if n >= 10 {
        lemma_padded_push(decimal(n / 10), digit_char(n % 10), width);
    } else {
        let c = digit_char(n);
        lemma_padded_push(seq!['0'], c, width);
        assert(decimal(0) =~= seq!['0']);
        assert(seq!['0'] + seq![c] =~= seq!['0'].push(c));
        assert(padded_left(seq![c], '0', width) == padded_left(seq!['0'] + seq![c], '0', width));
    }
}

proof fn lemma_digits_length(n: nat, width: nat)
    requires
        width >= 1,
        n < power_of_ten(width),
    ensures
        digits(n, width).len() == width,
    decreases width,
{
    if width == 1 {
        assert(power_of_ten(0) == 1);
    } else {
        lemma_last_digit(n, width);
        lemma_digits_length(n / 10, (width - 1) as nat);
    }
}

/// Numbers of one length stand in the order of their values.
proof fn lemma_digits_order(a: nat, b: nat, width: nat)
    requires
        width >= 1,
        a < b < power_of_ten(width),
    ensures
        digits(a, width).len() == width,
        digits(b, width).len() == width,
        is_before(digits(a, width), digits(b, width)),
    decreases width,
{
    lemma_digits_length(a, width);
    lemma_digits_length(b, width);
    let none = Seq::<char>::empty();
    let (last_a, last_b) = (seq![digit_char(a % 10)], seq![digit_char(b % 10)]);
    if width == 1 {
        assert(power_of_ten(0) == 1);
        assert(digits(a, width) =~= last_a);
        assert(digits(b, width) =~= last_b);
    } else {
        let less = (width - 1) as nat;
        lemma_last_digit(a, width);
        lemma_last_digit(b, width);
        let (start_a, start_b) = (digits(a / 10, less), digits(b / 10, less));
        if a / 10 == b / 10 {
            assert(last_a[0] < last_b[0]);
            lemma_parts_decide(start_a, last_a, last_b, none, none);
            assert(start_a + last_a + none =~= digits(a, width));
            assert(start_b + last_b + none =~= digits(b, width));
        } else {
            assert(a / 10 < b / 10);
            assert(b / 10 < power_of_ten(less));
            lemma_digits_order(a / 10, b / 10, less);
            lemma_parts_decide(none, start_a, start_b, last_a, last_b);
            assert(none + start_a + last_a =~= digits(a, width));
            assert(none + start_b + last_b =~= digits(b, width));
        }
    }
}

/// The last second of the year 9999.
pub open spec fn last_second() -> nat {
    253_402_300_799
}

/// The parts of a time are those of the calendar and of a day, and up to the year 9999 the year
/// has four digits.
proof fn lemma_parts(seconds: nat)
    requires
        seconds <= last_second(),
    ensures
        1970 <= date_of(seconds / 86_400).year <= 9999,
        1 <= date_of(seconds / 86_400).month <= 12,
        1 <= date_of(seconds / 86_400).day <= 31,
{
    let days = seconds / 86_400;
    let date = date_of(days);
    lemma_date_of(days);
    assert(days <= 2_932_896);
    if date.year >= 10_000 {
        let last = Date { year: 9999, month: 12, day: 31 };
        lemma_year_length(9999);
        assert(days_to(last) == 2_932_896) by {
            assert(leaps(9998) == 2499 - 99 + 24);
        }
        lemma_days_grow(last, date);
    }
}

/// A date and a time of day in numbers, the largest unit first.
type Parts = (nat, nat, nat, nat, nat, nat);

spec fn parts_of(seconds: nat) -> Parts {
    let date = date_of(seconds / 86_400);
    let rest = seconds % 86_400;
    (date.year, date.month, date.day, rest / 3_600, (rest % 3_600) / 60, rest % 60)
}

spec fn are_short(p: Parts) -> bool {
    p.0 < 10_000 && p.1 < 100 && p.2 < 100 && p.3 < 100 && p.4 < 100 && p.5 < 100
}

/// Whether the first different part is the smaller one.
spec fn is_earlier(a: Parts, b: Parts) -> bool {
    a.0 < b.0 || (a.0 == b.0 && (a.1 < b.1 || (a.1 == b.1 && (a.2 < b.2 || (a.2 == b.2 && (a.3 < b.3
        || (a.3 == b.3 && (a.4 < b.4 || (a.4 == b.4 && a.5 < b.5)))))))))
}

spec fn text_of(p: Parts) -> Text {
    moment_text(p.0, p.1, p.2, "T"@, p.3, p.4, p.5) + "Z"@
}

proof fn lemma_powers()
    ensures
        power_of_ten(2) == 100,
        power_of_ten(4) == 10_000,
{
    reveal_with_fuel(power_of_ten, 5);
}

proof fn lemma_text_length(p: Parts)
    requires
        are_short(p),
    ensures
        text_of(p).len() == 20,
{
    lemma_powers();
    reveal_strlit("-");
    reveal_strlit(":");
    reveal_strlit("T");
    reveal_strlit("Z");
    lemma_digits_length(p.0, 4);
    lemma_digits_length(p.1, 2);
    lemma_digits_length(p.2, 2);
    lemma_digits_length(p.3, 2);
    lemma_digits_length(p.4, 2);
    lemma_digits_length(p.5, 2);
}

/// The text from the minute on.
spec fn end_of(p: Parts) -> Text {
    ":"@ + digits(p.4, 2) + ":"@ + digits(p.5, 2) + "Z"@
}

/// The text up to the day.
spec fn start_of(p: Parts) -> Text {
    digits(p.0, 4) + "-"@ + digits(p.1, 2) + "-"@
}

proof fn lemma_text_order(a: Parts, b: Parts)
    requires
        are_short(a),
        are_short(b),
        is_earlier(a, b),
    ensures
        is_before(text_of(a), text_of(b)),
{
    if a.0 != b.0 {
        lemma_year_order(a, b);
    } else if a.1 != b.1 {
        lemma_month_order(a, b);
    } else if a.2 != b.2 {
        lemma_day_order(a, b);
    } else {
        lemma_time_order(a, b);
    }
}

proof fn lemma_month_order(a: Parts, b: Parts)
    requires
        are_short(a),
        are_short(b),
        a.0 == b.0,
        a.1 < b.1,
    ensures
        is_before(text_of(a), text_of(b)),
{
    lemma_powers();
    lemma_digits_order(a.1, b.1, 2);
    let start = digits(a.0, 4) + "-"@;
    let rest_a = "-"@ + digits(a.2, 2) + "T"@ + digits(a.3, 2) + end_of(a);
    let rest_b = "-"@ + digits(b.2, 2) + "T"@ + digits(b.3, 2) + end_of(b);
    lemma_parts_decide(start, digits(a.1, 2), digits(b.1, 2), rest_a, rest_b);
    assert(start + digits(a.1, 2) + rest_a =~= text_of(a));
    assert(start + digits(b.1, 2) + rest_b =~= text_of(b));
}

proof fn lemma_day_order(a: Parts, b: Parts)
    requires
        are_short(a),
        are_short(b),
        a.0 == b.0,
        a.1 == b.1,
        a.2 < b.2,
    ensures
        is_before(text_of(a), text_of(b)),
{
    lemma_powers();
    lemma_digits_order(a.2, b.2, 2);
    let start = start_of(a);
    let rest_a = "T"@ + digits(a.3, 2) + end_of(a);
    let rest_b = "T"@ + digits(b.3, 2) + end_of(b);
    lemma_parts_decide(start, digits(a.2, 2), digits(b.2, 2), rest_a, rest_b);
    assert(start + digits(a.2, 2) + rest_a =~= text_of(a));
    assert(start + digits(b.2, 2) + rest_b =~= text_of(b));
}

/// The text behind the year.
spec fn after_year(p: Parts) -> Text {
    "-"@ + digits(p.1, 2) + "-"@ + digits(p.2, 2) + "T"@ + digits(p.3, 2) + end_of(p)
}

proof fn lemma_text_from_year(p: Parts)
    ensures
        text_of(p) == Seq::<char>::empty() + digits(p.0, 4) + after_year(p),
{
    assert(text_of(p) =~= Seq::<char>::empty() + digits(p.0, 4) + after_year(p));
}

proof fn lemma_year_order(a: Parts, b: Parts)
    requires
        are_short(a),
        are_short(b),
        a.0 < b.0,
    ensures
        is_before(text_of(a), text_of(b)),
{
    lemma_powers();
    lemma_digits_order(a.0, b.0, 4);
    let none = Seq::<char>::empty();
    lemma_parts_decide(none, digits(a.0, 4), digits(b.0, 4), after_year(a), after_year(b));
    lemma_text_from_year(a);
    lemma_text_from_year(b);
}

proof fn lemma_time_order(a: Parts, b: Parts)
    requires
        are_short(a),
        are_short(b),
        is_earlier(a, b),
        a.0 == b.0 && a.1 == b.1 && a.2 == b.2,
    ensures
        is_before(text_of(a), text_of(b)),
{
    lemma_powers();
    let day = start_of(a) + digits(a.2, 2) + "T"@;
    if a.3 != b.3 {
        lemma_digits_order(a.3, b.3, 2);
        lemma_parts_decide(day, digits(a.3, 2), digits(b.3, 2), end_of(a), end_of(b));
        assert(day + digits(a.3, 2) + end_of(a) =~= text_of(a));
        assert(day + digits(b.3, 2) + end_of(b) =~= text_of(b));
    } else if a.4 != b.4 {
        lemma_digits_order(a.4, b.4, 2);
        let start = day + digits(a.3, 2) + ":"@;
        let rest_a = ":"@ + digits(a.5, 2) + "Z"@;
        let rest_b = ":"@ + digits(b.5, 2) + "Z"@;
        lemma_parts_decide(start, digits(a.4, 2), digits(b.4, 2), rest_a, rest_b);
        assert(start + digits(a.4, 2) + rest_a =~= text_of(a));
        assert(start + digits(b.4, 2) + rest_b =~= text_of(b));
    } else {
        lemma_digits_order(a.5, b.5, 2);
        let start = day + digits(a.3, 2) + ":"@ + digits(a.4, 2) + ":"@;
        lemma_parts_decide(start, digits(a.5, 2), digits(b.5, 2), "Z"@, "Z"@);
        assert(start + digits(a.5, 2) + "Z"@ =~= text_of(a));
        assert(start + digits(b.5, 2) + "Z"@ =~= text_of(b));
    }
}

proof fn lemma_later_is_later(a: nat, b: nat)
    requires
        a < b,
    ensures
        is_earlier(parts_of(a), parts_of(b)),
{
    let (days_a, days_b) = (a / 86_400, b / 86_400);
    let (date_a, date_b) = (date_of(days_a), date_of(days_b));
    lemma_date_of(days_a);
    lemma_date_of(days_b);
    if days_a == days_b {
        assert(a % 86_400 < b % 86_400);
    } else {
        assert(days_a < days_b);
        if !(date_a.year < date_b.year || (date_a.year == date_b.year && (date_a.month
            < date_b.month || (date_a.month == date_b.month && date_a.day < date_b.day)))) {
            if date_a != date_b {
                lemma_days_grow(date_b, date_a);
            }
        }
    }
}

/// Up to the end of the year 9999, times are written in twenty characters, and their texts stand
/// in the order of the times.
pub proof fn law_texts_follow_the_times(a: nat, b: nat)
    requires
        a < b <= last_second(),
    ensures
        (utc_stem(a) + "Z"@).len() == 20,
        (utc_stem(b) + "Z"@).len() == 20,
        is_before(utc_stem(a) + "Z"@, utc_stem(b) + "Z"@),
{
    lemma_parts(a);
    lemma_parts(b);
    lemma_text_length(parts_of(a));
    lemma_text_length(parts_of(b));
    lemma_later_is_later(a, b);
    lemma_text_order(parts_of(a), parts_of(b));
}

/// A time with microseconds, as a date and a time of day in UTC.
pub fn format_unix_micros(seconds: u64, micros: u32) -> (r: String)
    ensures
        r@ == utc_stem(seconds as nat) + "."@ + digits(micros as nat, 6) + "Z"@,
{
    let mut out = show_stem(seconds);
    out.append(".");
    put_digits(&mut out, micros as u64, 6);
    out.append("Z");
    out
}

/// A point of time in UTC, in its parts.
#[derive(Clone, Copy, Debug, PartialEq, Eq, Structural)]
pub struct Moment {
    pub year: u64,
    pub month: u64,
    pub day: u64,
    pub hour: u64,
    pub minute: u64,
    pub second: u64,
}

/// The last year in which a moment can be shown.
pub const LAST_YEAR: u64 = 2_147_483_647;

/// Whether the moment of a time can be shown: its year is not too far away.
pub open spec fn has_moment(unix: nat) -> bool {
    date_of(unix / 86_400).year <= LAST_YEAR
}

/// The moment of a time, where it can be shown.
pub fn moment_of(unix: u64) -> (r: Option<Moment>)
    ensures
        r is Some <==> has_moment(unix as nat),
        r matches Some(moment) ==> {
            &&& date_of(unix as nat / 86_400) == (Date {
                year: moment.year as nat,
                month: moment.month as nat,
                day: moment.day as nat,
            })
            &&& moment.hour == unix % 86_400 / 3_600
            &&& moment.minute == unix % 86_400 % 3_600 / 60
            &&& moment.second == unix % 86_400 % 60
        },
{
    let (year, month, day) = civil_date(unix / 86_400);
    if year > LAST_YEAR {
        return None;
    }
    let rest: u64 = unix % 86_400;
    Some(
        Moment {
            year,
            month,
            day,
            hour: rest / 3_600,
            minute: rest % 3_600 / 60,
            second: rest % 60,
        },
    )
}

/// A time as people read it: its moment where that can be shown, else the number of seconds.
pub open spec fn timestamp(unix: u64) -> Text {
    if has_moment(unix as nat) {
        moment_at(unix as nat, " "@)
    } else {
        decimal(unix as nat)
    }
}

/// A time as people read it.
pub fn format_timestamp(unix: u64) -> (r: String)
    ensures
        r@ == timestamp(unix),
{
    match moment_of(unix) {
        Some(m) => show_moment(m.year, m.month, m.day, " ", m.hour, m.minute, m.second),
        None => to_decimal(unix as u128),
    }
}

/// How long ago something happened.
pub open spec fn age_text(now: u64, at: u64) -> Text {
    if at > now {
        "in future"@
    } else {
        let seconds = (now - at) as nat;
        if seconds < 10 {
            "just now"@
        } else if seconds < 60 {
            decimal(seconds) + "s ago"@
        } else if seconds < 3_600 {
            decimal(seconds / 60) + "m ago"@
        } else if seconds < 86_400 {
            decimal(seconds / 3_600) + "h ago"@
        } else {
            decimal(seconds / 86_400) + "d ago"@
        }
    }
}

/// How long ago something happened that happened at the time `at`.
pub fn format_age(now: u64, at: u64) -> (r: String)
    ensures
        r@ == age_text(now, at),
{
    if at > now {
        return "in future".to_owned();
    }
    let seconds: u64 = now - at;
    if seconds < 10 {
        return "just now".to_owned();
    }
    let (number, unit): (u64, &str) = if seconds < 60 {
        (seconds, "s ago")
    } else if seconds < 3_600 {
        (seconds / 60, "m ago")
    } else if seconds < 86_400 {
        (seconds / 3_600, "h ago")
    } else {
        (seconds / 86_400, "d ago")
    };
    let mut out = to_decimal(number as u128);
    out.append(unit);
    out
}

/// The time of a deployment, as people read it; one that lies in the future is called so.
pub open spec fn deployment_timestamp(now: u64, unix: u64) -> Text {
    timestamp(unix) + (if unix > now {
        " UTC (in future)"@
    } else {
        " UTC"@
    })
}

/// The time of a deployment, as people read it.
pub fn format_deployment_timestamp(now: u64, unix: u64) -> (r: String)
    ensures
        r@ == deployment_timestamp(now, unix),
{
    let mut out = format_timestamp(unix);
    if unix > now {
        out.append(" UTC (in future)");
    } else {
        out.append(" UTC");
    }
    out
}

// ---------------------------------------------------------------------------------------------
// The calendar and the clock
// ---------------------------------------------------------------------------------------------

/// A year that four divides is a leap year, but for one that a hundred divides and four hundred do
/// not; the months have the lengths of the calendar.
pub proof fn law_months_have_their_days(year: nat)
    ensures
        year % 4 != 0 ==> !is_leap(year) && days_of_month(year, 2) == 28,
        year % 4 == 0 && year % 100 != 0 ==> is_leap(year) && days_of_month(year, 2) == 29,
        year % 100 == 0 && year % 400 != 0 ==> !is_leap(year) && days_of_month(year, 2) == 28,
        year % 400 == 0 ==> is_leap(year) && days_of_month(year, 2) == 29,
        days_of_month(year, 1) == 31 && days_of_month(year, 3) == 31,
        days_of_month(year, 5) == 31 && days_of_month(year, 7) == 31,
        days_of_month(year, 8) == 31 && days_of_month(year, 10) == 31,
        days_of_month(year, 12) == 31,
        days_of_month(year, 4) == 30 && days_of_month(year, 6) == 30,
        days_of_month(year, 9) == 30 && days_of_month(year, 11) == 30,
        date_of(0) == (Date { year: 1970, month: 1, day: 1 }),
{
    if year % 400 == 0 {
        assert(year % 4 == 0 && year % 100 == 0);
    }
    if year % 100 == 0 {
        assert(year % 4 == 0);
    }
}

/// The time of day in a moment: as many hours, minutes and seconds as there are seconds since the
/// day began.
pub proof fn law_time_of_day(days: nat, hour: nat, minute: nat, second: nat, separator: Text)
    requires
        hour < 24,
        minute < 60,
        second < 60,
    ensures
        moment_at(86_400 * days + 3_600 * hour + 60 * minute + second, separator) == moment_text(
            date_of(days).year,
            date_of(days).month,
            date_of(days).day,
            separator,
            hour,
            minute,
            second,
        ),
{
    let seconds = 86_400 * days + 3_600 * hour + 60 * minute + second;
    assert(seconds / 86_400 == days);
    let rest = 3_600 * hour + 60 * minute + second;
    assert(seconds % 86_400 == rest);
    assert(rest / 3_600 == hour);
    assert(rest % 3_600 == 60 * minute + second);
    assert((60 * minute + second) / 60 == minute);
    assert(rest % 60 == second);
}

/// How long ago something was is told in seconds under a minute, in minutes under an hour, in hours
/// under a day and in days from there, rounded down; under ten seconds it was just now.
pub proof fn law_ages_are_told_in_whole_units(now: u64, at: u64, n: nat)
    ensures
        at > now ==> age_text(now, at) == "in future"@,
        0 <= now - at < 10 ==> age_text(now, at) == "just now"@,
        10 <= now - at < 60 ==> age_text(now, at) == decimal((now - at) as nat) + "s ago"@,
        1 <= n < 60 && 60 * n <= now - at < 60 * n + 60 ==> age_text(now, at) == decimal(n)
            + "m ago"@,
        1 <= n < 24 && 3_600 * n <= now - at < 3_600 * n + 3_600 ==> age_text(now, at) == decimal(
            n,
        ) + "h ago"@,
        1 <= n && 86_400 * n <= now - at < 86_400 * n + 86_400 ==> age_text(now, at) == decimal(n)
            + "d ago"@,
{
}

/// The time of a deployment ends with `UTC`, and is called so where it lies in the future.
pub proof fn law_deployments_in_the_future_are_called_so(now: u64, unix: u64)
    ensures
        unix <= now ==> deployment_timestamp(now, unix) == timestamp(unix) + " UTC"@,
        unix > now ==> deployment_timestamp(now, unix) == timestamp(unix) + " UTC (in future)"@,
{
}

} // verus!
