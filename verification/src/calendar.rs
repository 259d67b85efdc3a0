//! The proleptic Gregorian calendar, and dates as day numbers counted from 1970-01-01.

use vstd::prelude::*;

verus! {

/// Whether `year` has a 29th of February.
pub open spec fn is_leap_year(year: int) -> bool {
    year % 4 == 0 && (year % 100 != 0 || year % 400 == 0)
}

/// How many days the month has.
pub open spec fn days_in_month(year: int, month: int) -> int {
    if month == 2 {
        if is_leap_year(year) {
            29
        } else {
            28
        }
    } else if month == 4 || month == 6 || month == 9 || month == 11 {
        30
    } else {
        31
    }
}

/// Whether the calendar has such a date.
pub open spec fn is_date(year: int, month: int, day: int) -> bool {
    1 <= month <= 12 && 1 <= day <= days_in_month(year, month)
}

/// How many days lie between the first of January of year 1 and that of `year`.
pub open spec fn days_before_year(year: int) -> int {
    365 * (year - 1) + (year - 1) / 4 - (year - 1) / 100 + (year - 1) / 400
}

/// How many days of `year` precede the first of `month`.
pub open spec fn days_before_month(year: int, month: int) -> int
    decreases month,
{
    if month <= 1 {
        0
    } else {
        days_before_month(year, month - 1) + days_in_month(year, month - 1)
    }
}

/// The number of the day `year`-`month`-`day`, where 1970-01-01 is day 0.
pub open spec fn day_number(year: int, month: int, day: int) -> int {
    days_before_year(year) + days_before_month(year, month) + day - 1 - 719_162
}

/// The date whose day number is `n`, as year, month and day.
pub open spec fn date_of_day(n: int) -> (int, int, int) {
    choose|date: (int, int, int)|
        is_date(date.0, date.1, date.2) && #[trigger] day_number(date.0, date.1, date.2) == n
}

proof fn lemma_days_before_months(year: int)
    ensures
        days_before_month(year, 1) == 0,
        days_before_month(year, 2) == 31,
        days_before_month(year, 3) == 31 + days_in_month(year, 2),
        days_before_month(year, 4) == 62 + days_in_month(year, 2),
        days_before_month(year, 5) == 92 + days_in_month(year, 2),
        days_before_month(year, 6) == 123 + days_in_month(year, 2),
        days_before_month(year, 7) == 153 + days_in_month(year, 2),
        days_before_month(year, 8) == 184 + days_in_month(year, 2),
        days_before_month(year, 9) == 215 + days_in_month(year, 2),
        days_before_month(year, 10) == 245 + days_in_month(year, 2),
        days_before_month(year, 11) == 276 + days_in_month(year, 2),
        days_before_month(year, 12) == 306 + days_in_month(year, 2),
        days_before_month(year, 13) == 337 + days_in_month(year, 2),
{
    reveal_with_fuel(days_before_month, 14);
}

/// Consecutive years start 366 days apart if the first of them is a leap year, else 365.
pub proof fn law_year_length(year: int)
    ensures
        days_before_year(year + 1) - days_before_year(year) == if is_leap_year(year) {
            366int
        } else {
            365int
        },
{
    let p = year - 1;
    assert(year / 4 - p / 4 == if year % 4 == 0 { 1int } else { 0int });
    assert(year / 100 - p / 100 == if year % 100 == 0 { 1int } else { 0int });
    assert(year / 400 - p / 400 == if year % 400 == 0 { 1int } else { 0int });
}

proof fn lemma_years_ascend(a: int, b: int)
    requires
        a < b,
    ensures
        days_before_year(a) + 365 <= days_before_year(b),
        is_leap_year(a) ==> days_before_year(a) + 366 <= days_before_year(b),
    decreases b - a,
{
    law_year_length(b - 1);
    if a + 1 < b {
        lemma_years_ascend(a, b - 1);
    }
}

/// A later date has a greater day number.
pub proof fn law_day_numbers_ascend(a: (int, int, int), b: (int, int, int))
    requires
        is_date(a.0, a.1, a.2),
        is_date(b.0, b.1, b.2),
        a.0 < b.0 || (a.0 == b.0 && (a.1 < b.1 || (a.1 == b.1 && a.2 < b.2))),
    ensures
        day_number(a.0, a.1, a.2) < day_number(b.0, b.1, b.2),
{
    lemma_days_before_months(a.0);
    lemma_days_before_months(b.0);
    if a.0 < b.0 {
        lemma_years_ascend(a.0, b.0);
    }
}

/// A date is recovered from its day number: no two dates share one.
pub proof fn law_date_of_day_number(year: int, month: int, day: int)
    requires
        is_date(year, month, day),
    ensures
        date_of_day(day_number(year, month, day)) == (year, month, day),
{
    let n = day_number(year, month, day);
    let date = (year, month, day);
    assert(is_date(date.0, date.1, date.2) && day_number(date.0, date.1, date.2) == n);
    let found = date_of_day(n);
    assert(is_date(found.0, found.1, found.2) && day_number(found.0, found.1, found.2) == n);
    if found != date {
        if found.0 < date.0 || (found.0 == date.0 && (found.1 < date.1 || (found.1 == date.1
            && found.2 < date.2))) {
            law_day_numbers_ascend(found, date);
        } else {
            law_day_numbers_ascend(date, found);
        }
    }
}

/// The day of a 400-year era, which starts on a first of March, splits into a year of the era and
/// a day of that year.
proof fn lemma_year_of_era(day_of_era: int, year_of_era: int, day_of_year: int)
    requires
        0 <= day_of_era <= 146_096,
        year_of_era == (day_of_era - day_of_era / 1_460 + day_of_era / 36_524 - day_of_era
            / 146_096) / 365,
        day_of_year == day_of_era - (365 * year_of_era + year_of_era / 4 - year_of_era / 100),
    ensures
        0 <= year_of_era <= 399,
        0 <= day_of_year <= 365,
        day_of_year == 365 ==> is_leap_year(year_of_era + 1),
{
    // centuries of 36524 days, of which the last is a day longer
    let c = if day_of_era == 146_096 { 3int } else { day_of_era / 36_524 };
    let in_c = day_of_era - 36_524 * c;
    // spans of four years of 1461 days, of which the last may be a day shorter
    let q = in_c / 1_461;
    let in_q = in_c - 1_461 * q;
    let y = if in_q == 1_460 { 3int } else { in_q / 365 };
    let d = in_q - 365 * y;
    assert(0 <= c <= 3 && 0 <= in_c <= 36_524 && 0 <= q <= 24 && 0 <= in_q <= 1_460);
    assert(0 <= y <= 3 && 0 <= d <= 365);
    let yoe = 100 * c + 4 * q + y;
    assert(yoe / 4 == 25 * c + q);
    assert(yoe / 100 == c);
    assert(day_of_era == 365 * yoe + yoe / 4 - yoe / 100 + d);
    assert(d == 365 ==> (y == 3 && (q < 24 || c == 3)));
    assert(year_of_era == yoe);
}

proof fn lemma_march_based_date(n: int, era: int, year_of_era: int, day_of_year: int, m: int)
    requires
        n + 719_468 == 146_097 * era + 365 * year_of_era + year_of_era / 4 - year_of_era / 100
            + day_of_year,
        0 <= year_of_era <= 399,
        0 <= day_of_year <= 365,
        day_of_year == 365 ==> is_leap_year(year_of_era + 1),
        m == (5 * day_of_year + 2) / 153,
    ensures
        ({
            let day = day_of_year - (153 * m + 2) / 5 + 1;
            let month = if m < 10 { m + 3 } else { m - 9 };
            let year = 400 * era + year_of_era + if month <= 2 { 1int } else { 0int };
            is_date(year, month, day) && day_number(year, month, day) == n && 0 <= m <= 11
        }),
{
    let day = day_of_year - (153 * m + 2) / 5 + 1;
    let month = if m < 10 { m + 3 } else { m - 9 };
    let marched = 400 * era + year_of_era;
    let year = marched + if month <= 2 { 1int } else { 0int };
    lemma_days_before_months(year);
    law_year_length(marched);
    assert(marched / 4 == 100 * era + year_of_era / 4);
    assert(marched / 100 == 4 * era + year_of_era / 100);
    assert(marched / 400 == era);
    assert(is_leap_year(marched + 1) == is_leap_year(year_of_era + 1));
    assert(0 <= m <= 11);
}

/// The calendar date, as year, month and day, of a day counted from 1970-01-01.
pub(crate) fn civil_date(days: i64) -> (date: (i64, i64, i64))
    requires
        -200_000_000_000_000 <= days <= 200_000_000_000_000,
    ensures
        is_date(date.0 as int, date.1 as int, date.2 as int),
        day_number(date.0 as int, date.1 as int, date.2 as int) == days,
        -1_000_000_000_000 <= date.0 <= 1_000_000_000_000,
{
    let shifted: i64 = days + 719_468;
    let era: i64 = match shifted.checked_div_euclid(146_097) {
        Some(quotient) => quotient,
        None => 0,
    };
    let day_of_era: i64 = shifted - era * 146_097;
    let year_of_era: i64 = (day_of_era - day_of_era / 1_460 + day_of_era / 36_524 - day_of_era
        / 146_096) / 365;
    let day_of_year: i64 = day_of_era - (365 * year_of_era + year_of_era / 4 - year_of_era / 100);
    let month_prime: i64 = (5 * day_of_year + 2) / 153;
    proof {
        lemma_year_of_era(day_of_era as int, year_of_era as int, day_of_year as int);
        lemma_march_based_date(
            days as int,
            era as int,
            year_of_era as int,
            day_of_year as int,
            month_prime as int,
        );
    }
    let day: i64 = day_of_year - (153 * month_prime + 2) / 5 + 1;
    let month: i64 = if month_prime < 10 {
        month_prime + 3
    } else {
        month_prime - 9
    };
    let year: i64 = year_of_era + era * 400 + if month <= 2 {
        1
    } else {
        0
    };
    (year, month, day)
}

/// Days are numbered from 1970-01-01 on, without a gap: the day after the last of a month is the
/// first of the next month, and the day after the last of a year is the first of the next year.
pub proof fn law_days_are_numbered_without_a_gap(year: int, month: int, day: int)
    requires
        is_date(year, month, day),
    ensures
        day_number(1970, 1, 1) == 0,
        day < days_in_month(year, month) ==> day_number(year, month, day + 1) == day_number(
            year,
            month,
            day,
        ) + 1,
        day == days_in_month(year, month) && month < 12 ==> day_number(year, month + 1, 1)
            == day_number(year, month, day) + 1,
        day == days_in_month(year, month) && month == 12 ==> day_number(year + 1, 1, 1)
            == day_number(year, month, day) + 1,
{
    lemma_days_before_months(year);
    lemma_days_before_months(year + 1);
    lemma_days_before_months(1970);
    law_year_length(year);
}

/// The calendar repeats itself every 400 years, which have 146097 days, 97 of them a 29th of
/// February; and months have the lengths that they have.
pub proof fn law_calendar_repeats(year: int, month: int, day: int)
    requires
        is_date(year, month, day),
    ensures
        is_date(year + 400, month, day),
        day_number(year + 400, month, day) == day_number(year, month, day) + 400 * 365 + 97,
        day <= 31,
        month == 2 ==> day <= 29,
        month == 4 || month == 6 || month == 9 || month == 11 ==> day <= 30,
        month == 2 && day == 29 ==> year % 4 == 0,
{
    lemma_days_before_months(year);
    lemma_days_before_months(year + 400);
    assert((year + 399) / 4 == (year - 1) / 4 + 100);
    assert((year + 399) / 100 == (year - 1) / 100 + 4);
    assert((year + 399) / 400 == (year - 1) / 400 + 1);
    assert(is_leap_year(year + 400) == is_leap_year(year));
}

/// Every day number is that of a date, and `date_of_day` gives it.
pub proof fn law_every_day_has_a_date(n: int)
    ensures
        ({
            let (year, month, day) = date_of_day(n);
            is_date(year, month, day) && day_number(year, month, day) == n
        }),
{
    let shifted = n + 719_468;
    let era = shifted / 146_097;
    let day_of_era = shifted - era * 146_097;
    let year_of_era = (day_of_era - day_of_era / 1_460 + day_of_era / 36_524 - day_of_era
        / 146_096) / 365;
    let day_of_year = day_of_era - (365 * year_of_era + year_of_era / 4 - year_of_era / 100);
    let m = (5 * day_of_year + 2) / 153;
    lemma_year_of_era(day_of_era, year_of_era, day_of_year);
    lemma_march_based_date(n, era, year_of_era, day_of_year, m);
    let day = day_of_year - (153 * m + 2) / 5 + 1;
    let month = if m < 10 { m + 3 } else { m - 9 };
    let year = 400 * era + year_of_era + if month <= 2 { 1int } else { 0int };
    let date = (year, month, day);
    assert(is_date(date.0, date.1, date.2) && day_number(date.0, date.1, date.2) == n);
}

/// The lengths of months: each has 28 days, each but February has 30, seven have 31, and February
/// has 29 in the years that 4 divides, but for those that 100 divides and 400 does not.
pub proof fn law_lengths_of_months(year: int, month: int)
    requires
        1 <= month <= 12,
    ensures
        is_date(year, month, 1) && is_date(year, month, 28),
        is_date(year, month, 30) <==> month != 2,
        is_date(year, month, 31) <==> month == 1 || month == 3 || month == 5 || month == 7 || month
            == 8 || month == 10 || month == 12,
        is_date(year, 2, 29) <==> year % 4 == 0 && (year % 100 != 0 || year % 400 == 0),
        !is_date(year, month, 0) && !is_date(year, month, 32),
        !is_date(year, 0, 1) && !is_date(year, 13, 1),
{
}

} // verus!
