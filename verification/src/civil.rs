//! Civil date and time (UTC) from seconds since 1970, by Howard Hinnant's
//! days-to-civil algorithm.

use vstd::prelude::*;

verus! {

pub open spec fn is_leap(year: int) -> bool {
    year % 4 == 0 && (year % 100 != 0 || year % 400 == 0)
}

/// Leap years from year 1 up to and with `year` (counted backwards before it).
pub open spec fn leap_years(year: int) -> int {
    year / 4 - year / 100 + year / 400
}

/// Days from 1 January 1970 to 1 January of `year`.
pub open spec fn days_before_year(year: int) -> int {
    365 * (year - 1970) + leap_years(year - 1) - leap_years(1969)
}

pub open spec fn month_length(year: int, month: int) -> int {
    if month == 2 {
        if is_leap(year) {
            29
        } else {
            28
        }
    } else if month == 4 || month == 6 || month == 9 || month == 11 {
        30
    } else {
        31
    }
}

/// Days from 1 January to the first of `month`.
pub open spec fn days_before_month(year: int, month: int) -> int
    decreases month,
{
    if month <= 1 {
        0
    } else {
        days_before_month(year, month - 1) + month_length(year, month - 1)
    }
}

/// A day of the Gregorian calendar.
pub open spec fn is_date(year: int, month: int, day: int) -> bool {
    1 <= month <= 12 && 1 <= day <= month_length(year, month)
}

/// Days from 1 January 1970 to a date.
pub open spec fn day_number(year: int, month: int, day: int) -> int {
    days_before_year(year) + days_before_month(year, month) + day - 1
}

/// Year, month, day, hour, minute, second.
pub type Utc = (i64, u32, u32, u32, u32, u32);

/// The date and time of day is the one that `secs` seconds after 1970 began.
pub open spec fn is_utc(t: Utc, secs: int) -> bool {
    &&& is_date(t.0 as int, t.1 as int, t.2 as int)
    &&& t.3 < 24
    &&& t.4 < 60
    &&& t.5 < 60
    &&& 86400 * day_number(t.0 as int, t.1 as int, t.2 as int) + 3600 * t.3 + 60 * t.4 + t.5 == secs
}

/// The date and time of day `secs` seconds after 1970 began; there is no other, as
/// [`utc_is_unique`] shows.
pub open spec fn utc_of(secs: int) -> Utc {
    choose|t: Utc| is_utc(t, secs)
}

/// Years follow one another at 365 or 366 days.
pub proof fn years_follow(year: int)
    ensures
        days_before_year(year + 1) == days_before_year(year) + (if is_leap(year) {
            366int
        } else {
            365
        }),
{
    assert(year / 4 - (year - 1) / 4 == if year % 4 == 0 {
        1int
    } else {
        0
    });
    assert(year / 100 - (year - 1) / 100 == if year % 100 == 0 {
        1int
    } else {
        0
    });
    assert(year / 400 - (year - 1) / 400 == if year % 400 == 0 {
        1int
    } else {
        0
    });
}

/// Days from 1 March of year 0 of an era of 400 years to 1 March of year `yoe`.
spec fn days_of_years(yoe: int) -> int {
    365 * yoe + yoe / 4 - yoe / 100
}

/// The year of the era, counted from March, that day `doe` of the era falls in.
proof fn lemma_year_of_era(doe: int) -> (yoe: int)
    requires
        0 <= doe < 146097,
    ensures
        yoe == (doe - doe / 1460 + doe / 36524 - doe / 146096) / 365,
        0 <= yoe < 400,
        days_of_years(yoe) <= doe,
        doe < days_of_years(yoe) + 366,
        doe == days_of_years(yoe) + 365 ==> is_leap(yoe + 1),
{
    let yoe = (doe - doe / 1460 + doe / 36524 - doe / 146096) / 365;
    if doe == 146096 {
        assert(yoe == 399);
    } else {
        let c = doe / 36524;
        let r = doe % 36524;
        let q = r / 1461;
        let t = r % 1461;
        assert(0 <= c <= 3);
        assert(0 <= q <= 24);
        assert(doe == 36524 * c + 1461 * q + t);
        assert(doe / 146096 == 0);
        let e = (24 * c + q + t) / 1460;
        assert(doe / 1460 == 25 * c + q + e);
        assert(0 <= e <= 1);
        assert(doe - doe / 1460 + doe / 36524 == 36500 * c + 1460 * q + t - e);
        let y = (t - e) / 365;
        assert(0 <= y <= 3);
        assert(yoe == 100 * c + 4 * q + y);
        assert(yoe / 100 == c);
        assert(yoe / 4 == 25 * c + q);
        assert(days_of_years(yoe) == 36524 * c + 1461 * q + 365 * y);
        assert(t - 365 * y >= 0);
        assert(t - 365 * y <= 365);
        if t - 365 * y == 365 {
            assert(y == 3);
            assert((yoe + 1) % 4 == 0);
            assert((yoe + 1) == 100 * c + 4 * (q + 1));
            assert(q < 24);
            assert((yoe + 1) % 100 != 0);
        }
    }
    yoe
}

/// Days from 1970 to 1 March of a year, by eras of 400 years.
proof fn lemma_first_of_march(era: int, yoe: int)
    requires
        0 <= yoe < 400,
    ensures
        days_before_year(400 * era + yoe) + (if is_leap(400 * era + yoe) {
            60int
        } else {
            59
        }) == 146097 * era + days_of_years(yoe) - 719468,
        days_before_year(400 * era + yoe + 1) == 146097 * era + days_of_years(yoe) - 719468 + 306,
{
    let year = 400 * era + yoe;
    years_follow(year);
    assert(year / 4 == 100 * era + yoe / 4);
    assert(year / 100 == 4 * era + yoe / 100);
    assert(year / 400 == era);
}

/// Days from 1 January to the first of each month.
proof fn lemma_months(year: int)
    ensures
        ({
            let leap: int = if is_leap(year) {
                1
            } else {
                0
            };
            &&& days_before_month(year, 1) == 0
            &&& days_before_month(year, 2) == 31
            &&& days_before_month(year, 3) == 59 + leap
            &&& days_before_month(year, 4) == 90 + leap
            &&& days_before_month(year, 5) == 120 + leap
            &&& days_before_month(year, 6) == 151 + leap
            &&& days_before_month(year, 7) == 181 + leap
            &&& days_before_month(year, 8) == 212 + leap
            &&& days_before_month(year, 9) == 243 + leap
            &&& days_before_month(year, 10) == 273 + leap
            &&& days_before_month(year, 11) == 304 + leap
            &&& days_before_month(year, 12) == 334 + leap
        }),
{
    reveal_with_fuel(days_before_month, 13);
}

/// Months of a year that begins in March: the first day of month `mp`, and that of
/// the next.
spec fn march_month(mp: int) -> (int, int) {
    if mp == 0 {
        (0, 31)
    } else if mp == 1 {
        (31, 61)
    } else if mp == 2 {
        (61, 92)
    } else if mp == 3 {
        (92, 122)
    } else if mp == 4 {
        (122, 153)
    } else if mp == 5 {
        (153, 184)
    } else if mp == 6 {
        (184, 214)
    } else if mp == 7 {
        (214, 245)
    } else if mp == 8 {
        (245, 275)
    } else if mp == 9 {
        (275, 306)
    } else if mp == 10 {
        (306, 337)
    } else {
        (337, 366)
    }
}

/// The month that a day falls in.
proof fn lemma_month_of_day(doy: int)
    requires
        0 <= doy <= 365,
    ensures
        ({
            let mp = (5 * doy + 2) / 153;
            &&& 0 <= mp < 12
            &&& (153 * mp + 2) / 5 == march_month(mp).0
            &&& march_month(mp).0 <= doy < march_month(mp).1
        }),
{
}

/// Leap years repeat after 400 years.
proof fn lemma_leap_era(era: int, year: int)
    ensures
        is_leap(400 * era + year) == is_leap(year),
{
    assert((400 * era + year) % 4 == year % 4);
    assert((400 * era + year) % 100 == year % 100);
    assert((400 * era + year) % 400 == year % 400);
}

/// From a day of a year that begins in March to the date.
proof fn lemma_date_of_day(era: int, yoe: int, doy: int)
    requires
        0 <= yoe < 400,
        0 <= doy <= 365,
        doy == 365 ==> is_leap(yoe + 1),
    ensures
        ({
            let mp = (5 * doy + 2) / 153;
            let day = doy - (153 * mp + 2) / 5 + 1;
            let month = if mp < 10 {
                mp + 3
            } else {
                mp - 9
            };
            let year = if month <= 2 {
                400 * era + yoe + 1
            } else {
                400 * era + yoe
            };
            &&& 0 <= mp < 12
            &&& is_date(year, month, day)
            &&& day_number(year, month, day) == 146097 * era + days_of_years(yoe) + doy - 719468
        }),
{
    lemma_month_of_day(doy);
    lemma_first_of_march(era, yoe);
    lemma_months(400 * era + yoe);
    lemma_months(400 * era + yoe + 1);
    lemma_leap_era(era, yoe + 1);
}

/// Months follow one another at their lengths, and twelve of them make a year.
proof fn lemma_later_month(year: int, month: int, later: int)
    requires
        1 <= month < later <= 13,
    ensures
        days_before_month(year, month) + month_length(year, month) <= days_before_month(year, later),
        days_before_month(year, 13) == (if is_leap(year) {
            366int
        } else {
            365
        }),
    decreases later,
{
    lemma_months(year);
    assert(days_before_month(year, 13) == days_before_month(year, 12) + month_length(year, 12));
    if month + 1 < later {
        lemma_later_month(year, month, later - 1);
    }
}

/// The days of a year lie between its first day and that of the next year.
proof fn lemma_day_within_year(year: int, month: int, day: int)
    requires
        is_date(year, month, day),
    ensures
        days_before_year(year) <= day_number(year, month, day) < days_before_year(year + 1),
{
    years_follow(year);
    lemma_later_month(year, month, 13);
    assert(days_before_month(year, 1) == 0);
    if month > 1 {
        lemma_later_month(year, 1, month);
    }
}

/// A later year begins no earlier.
proof fn lemma_years_in_order(year: int, later: int)
    requires
        year <= later,
    ensures
        days_before_year(year) <= days_before_year(later),
    decreases later - year,
{
    if year < later {
        years_follow(later - 1);
        lemma_years_in_order(year, later - 1);
    }
}

/// A date of an earlier year has a smaller day number.
proof fn lemma_earlier_year(y1: int, m1: int, d1: int, y2: int, m2: int, d2: int)
    requires
        is_date(y1, m1, d1),
        is_date(y2, m2, d2),
        y1 < y2,
    ensures
        day_number(y1, m1, d1) < day_number(y2, m2, d2),
{
    lemma_day_within_year(y1, m1, d1);
    lemma_years_in_order(y1 + 1, y2);
    lemma_day_within_year(y2, m2, d2);
}

/// Two dates with the same day number are the same date.
proof fn lemma_date_is_unique(y1: int, m1: int, d1: int, y2: int, m2: int, d2: int)
    requires
        is_date(y1, m1, d1),
        is_date(y2, m2, d2),
        day_number(y1, m1, d1) == day_number(y2, m2, d2),
    ensures
        y1 == y2,
        m1 == m2,
        d1 == d2,
{
    if y1 < y2 {
        lemma_earlier_year(y1, m1, d1, y2, m2, d2);
    } else if y2 < y1 {
        lemma_earlier_year(y2, m2, d2, y1, m1, d1);
    } else if m1 < m2 {
        lemma_later_month(y1, m1, m2);
    } else if m2 < m1 {
        lemma_later_month(y1, m2, m1);
    }
}

/// No two dates or times of day stand for the same second.
pub proof fn utc_is_unique(t: Utc, u: Utc, secs: int)
    requires
        is_utc(t, secs),
        is_utc(u, secs),
    ensures
        t == u,
{
    let dt = day_number(t.0 as int, t.1 as int, t.2 as int);
    let du = day_number(u.0 as int, u.1 as int, u.2 as int);
    assert(dt == du);
    lemma_date_is_unique(
        t.0 as int,
        t.1 as int,
        t.2 as int,
        u.0 as int,
        u.1 as int,
        u.2 as int,
    );
}

/// 1970 began with second 0.
pub proof fn the_first_second()
    ensures
        is_utc((1970, 1, 1, 0, 0, 0), 0),
{
    assert(days_before_month(1970, 1) == 0);
}

/// The time of day is what is left of the seconds after whole days.
pub proof fn the_time_of_day(t: Utc, secs: int)
    requires
        is_utc(t, secs),
    ensures
        t.3 < 24 && t.4 < 60 && t.5 < 60,
        3600 * t.3 + 60 * t.4 + t.5 == secs % 86400,
{
}

/// A day later it is the same time of the next day: the day counts on to the end of
/// its month, the month to the end of the year. April, June, September and November
/// have 30 days; February has 28, and 29 in every fourth year, but of the full
/// centuries only in every fourth; the other months have 31.
pub proof fn days_follow_one_another(t: Utc, u: Utc, secs: int)
    requires
        is_utc(t, secs),
        is_utc(u, secs + 86400),
    ensures
        ({
            let (year, month, day) = (t.0 as int, t.1 as int, t.2 as int);
            let last: int = if month == 4 || month == 6 || month == 9 || month == 11 {
                30
            } else if month != 2 {
                31
            } else if year % 400 == 0 || (year % 4 == 0 && year % 100 != 0) {
                29
            } else {
                28
            };
            &&& 1 <= day <= last
            &&& (u.3, u.4, u.5) == (t.3, t.4, t.5)
            &&& day < last ==> u.0 == year && u.1 == month && u.2 == day + 1
            &&& day == last && month < 12 ==> u.0 == year && u.1 == month + 1 && u.2 == 1
            &&& day == last && month == 12 ==> u.0 == year + 1 && u.1 == 1 && u.2 == 1
        }),
{
    let (year, month, day) = (t.0 as int, t.1 as int, t.2 as int);
    let (y, m, d) = if day < month_length(year, month) {
        (year, month, day + 1)
    } else if month < 12 {
        (year, month + 1, 1)
    } else {
        (year + 1, 1, 1)
    };
    the_time_of_day(t, secs);
    the_time_of_day(u, secs + 86400);
    lemma_next_day(year, month, day);
    lemma_date_is_unique(y, m, d, u.0 as int, u.1 as int, u.2 as int);
}

/// The day after a date has the next number.
proof fn lemma_next_day(year: int, month: int, day: int)
    requires
        is_date(year, month, day),
    ensures
        day < month_length(year, month) ==> is_date(year, month, day + 1) && day_number(
            year,
            month,
            day + 1,
        ) == day_number(year, month, day) + 1,
        day == month_length(year, month) && month < 12 ==> is_date(year, month + 1, 1)
            && day_number(year, month + 1, 1) == day_number(year, month, day) + 1,
        day == month_length(year, month) && month == 12 ==> is_date(year + 1, 1, 1) && day_number(
            year + 1,
            1,
            1,
        ) == day_number(year, month, day) + 1,
{
    years_follow(year);
    lemma_months(year);
    assert(days_before_month(year + 1, 1) == 0);
}

/// What stands for a second is the date and time of day of that second.
proof fn lemma_utc_of(t: Utc, secs: int)
    requires
        is_utc(t, secs),
    ensures
        t == utc_of(secs),
{
    utc_is_unique(t, utc_of(secs), secs);
}

/// The date that lies `days` days after 1 January 1970.
fn date_from_days(days: i64) -> (date: (i64, u32, u32))
    requires
        -0x1000_0000_0000_0000 < days < 0x1000_0000_0000_0000,
    ensures
        is_date(date.0 as int, date.1 as int, date.2 as int),
        day_number(date.0 as int, date.1 as int, date.2 as int) == days,
{
    let z: i64 = days + 719468;
    let era: i64 = (if z >= 0 {
        z
    } else {
        z - 146096
    }) / 146097;
    assert(era == z as int / 146097);
    assert(-0x1000_0000_0000_0000 < 146097 * era < 0x1100_0000_0000_0000);
    let doe: i64 = z - era * 146097;
    assert(0 <= doe < 146097);
    proof {
        lemma_year_of_era(doe as int);
    }
    let yoe: i64 = (doe - doe / 1460 + doe / 36524 - doe / 146096) / 365;
    let y: i64 = yoe + era * 400;
    let doy: i64 = doe - (365 * yoe + yoe / 4 - yoe / 100);
    proof {
        lemma_date_of_day(era as int, yoe as int, doy as int);
    }
    let mp: i64 = (5 * doy + 2) / 153;
    let d: i64 = doy - (153 * mp + 2) / 5 + 1;
    let m: i64 = if mp < 10 {
        mp + 3
    } else {
        mp - 9
    };
    let year: i64 = if m <= 2 {
        y + 1
    } else {
        y
    };
    (year, m as u32, d as u32)
}

/// Civil date and time (UTC) of `secs` seconds after 1970 began.
pub fn utc_from_unix(secs: i64) -> (t: Utc)
    ensures
        is_utc(t, secs as int),
        t == utc_of(secs as int),
{
    let mut days: i64 = secs / 86400;
    let mut rem: i64 = secs % 86400;
    if rem < 0 {
        days = days - 1;
        rem = rem + 86400;
    }
    assert(0 <= rem < 86400);
    assert(secs == 86400 * days + rem);
    let (y, m, d) = date_from_days(days);
    let h: i64 = rem / 3600;
    let mi: i64 = (rem % 3600) / 60;
    let s: i64 = rem % 60;
    assert(rem == 3600 * h + 60 * mi + s);
    let t: Utc = (y, m, d, h as u32, mi as u32, s as u32);
    proof {
        assert(86400 * day_number(y as int, m as int, d as int) + rem == secs);
        lemma_utc_of(t, secs as int);
    }
    t
}

} // verus!
