//! Dates of the Gregorian calendar, in UTC.
use vstd::prelude::*;

use crate::clock::unix_now;
use crate::text::{cat, cat3, decimal, show_u64};

verus! {

/// Whether a year has 366 days.
pub open spec fn leap(y: int) -> bool {
    y % 4 == 0 && (y % 100 != 0 || y % 400 == 0)
}

/// How many days a month has.
pub open spec fn month_days(y: int, m: int) -> int {
    if m == 2 {
        if leap(y) {
            29
        } else {
            28
        }
    } else if m == 4 || m == 6 || m == 9 || m == 11 {
        30
    } else {
        31
    }
}

/// Whether there is such a day.
pub open spec fn valid_date(y: int, m: int, d: int) -> bool {
    1 <= m <= 12 && 1 <= d <= month_days(y, m)
}

/// How many days of a year lie before a month.
pub open spec fn days_before_month(y: int, m: int) -> int
    decreases m,
{
    if m <= 1 {
        0
    } else {
        days_before_month(y, m - 1) + month_days(y, m - 1)
    }
}

/// How many leap years there are from the year one to the given year, counted
/// backwards for earlier years.
pub open spec fn leaps(y: int) -> int {
    y / 4 - y / 100 + y / 400
}

/// How many days lie between the first day of 1970 and the first day of a year.
pub open spec fn days_before_year(y: int) -> int {
    365 * (y - 1970) + leaps(y - 1) - leaps(1969)
}

/// How many days lie between the first day of 1970 and a day.
pub open spec fn day_number(y: int, m: int, d: int) -> int {
    days_before_year(y) + days_before_month(y, m) + d - 1
}

proof fn lemma_leaps(y: int)
    ensures
        leaps(y) == leaps(y - 1) + if leap(y) {
            1int
        } else {
            0
        },
{
    assert(y / 4 == (y - 1) / 4 + if y % 4 == 0 {
        1int
    } else {
        0
    });
    assert(y / 100 == (y - 1) / 100 + if y % 100 == 0 {
        1int
    } else {
        0
    });
    assert(y / 400 == (y - 1) / 400 + if y % 400 == 0 {
        1int
    } else {
        0
    });
    assert(y % 400 == 0 ==> y % 100 == 0) by {
        if y % 400 == 0 {
            assert(y == 100 * (4 * (y / 400)));
        }
    }
    assert(y % 100 == 0 ==> y % 4 == 0) by {
        if y % 100 == 0 {
            assert(y == 4 * (25 * (y / 100)));
        }
    }
}

/// A year is as long as its months, and the next one begins where it ends.
pub proof fn law_years_follow_each_other(y: int)
    ensures
        days_before_year(y + 1) == days_before_year(y) + days_before_month(y, 13),
        days_before_month(y, 13) == if leap(y) {
            366int
        } else {
            365
        },
{
    lemma_leaps(y);
    reveal_with_fuel(days_before_month, 14);
}

proof fn lemma_month_starts(y: int)
    ensures
        days_before_month(y, 1) == 0,
        days_before_month(y, 2) == 31,
        ({
            let l = if leap(y) {
                1int
            } else {
                0
            };
            &&& days_before_month(y, 3) == 59 + l
            &&& days_before_month(y, 4) == 90 + l
            &&& days_before_month(y, 5) == 120 + l
            &&& days_before_month(y, 6) == 151 + l
            &&& days_before_month(y, 7) == 181 + l
            &&& days_before_month(y, 8) == 212 + l
            &&& days_before_month(y, 9) == 243 + l
            &&& days_before_month(y, 10) == 273 + l
            &&& days_before_month(y, 11) == 304 + l
            &&& days_before_month(y, 12) == 334 + l
        }),
{
    reveal_with_fuel(days_before_month, 13);
}

/// How many days of an era of four hundred years, counted from March, lie before
/// a year of it.
spec fn era_days(k: int) -> int {
    365 * k + k / 4 - k / 100
}

/// The year that the arithmetic gives for a day of an era.
spec fn era_year(doe: int) -> int {
    (doe - doe / 1460 + doe / 36524 - doe / 146096) / 365
}

/// The year of an era begins on or before the day, and the day is its 366th only
/// where the next year is a leap year.
proof fn lemma_year_of_era(doe: int)
    requires
        0 <= doe < 146097,
    ensures
        0 <= era_year(doe) < 400,
        0 <= doe - era_days(era_year(doe)) <= 365,
        doe - era_days(era_year(doe)) == 365 ==> (era_year(doe) + 1) % 4 == 0 && ((era_year(doe)
            + 1) % 100 != 0 || era_year(doe) == 399),
{
    if doe == 146096 {
        assert(era_year(doe) == 399);
        assert(era_days(399) == 145731);
    } else {
        let b = doe / 36524;
        let x = doe - 36524 * b;
        assert(0 <= b <= 3 && 0 <= x < 36524);
        let j = x / 1461;
        let w = x - 1461 * j;
        assert(0 <= j <= 24 && 0 <= w <= 1460);
        assert(j == 24 ==> w <= 1459);
        let e: int = if 24 * b + j + w >= 1460 {
            1
        } else {
            0
        };
        let i: int = if w >= 1095 {
            3
        } else if w >= 730 {
            2
        } else if w >= 365 {
            1
        } else {
            0
        };
        let k = 100 * b + 4 * j + i;
        assert(doe == 1460 * (25 * b + j) + (24 * b + j + w));
        assert(doe / 1460 == 25 * b + j + e);
        assert(doe / 146096 == 0);
        let n = doe - doe / 1460 + doe / 36524 - doe / 146096;
        assert(n == 365 * k + (w - e - 365 * i));
        assert(0 <= w - e - 365 * i < 365);
        assert(n / 365 == k);
        assert(k / 4 == 25 * b + j);
        assert(k / 100 == b);
        assert(era_days(k) == 36524 * b + 1461 * j + 365 * i);
        if doe - era_days(k) == 365 {
            assert(i == 3 && w == 1460);
            assert(k + 1 == 4 * (25 * b + j + 1));
            assert(k + 1 == 100 * b + (4 * j + 4));
            assert(0 < 4 * j + 4 < 100);
        }
    }
}

/// The first of March of a year.
proof fn lemma_march(era: int, k: int)
    requires
        0 <= k < 400,
    ensures
        day_number(400 * era + k, 3, 1) == 146097 * era + era_days(k) - 719468,
        days_before_year(400 * era + k + 1) == 146097 * era + era_days(k) - 719468 + 306,
{
    let y = 400 * era + k;
    lemma_month_starts(y);
    lemma_leaps(y);
    assert(y / 4 == 100 * era + k / 4);
    assert(y / 100 == 4 * era + k / 100);
    assert(y / 400 == era);
    assert(leaps(1969) == 477);
}

/// How many days lie between the first of March and the first of a month, by the
/// month's place after March.
spec fn after_march(mp: int) -> int {
    (153 * mp + 2) / 5
}

/// The month of a day, by its place after March.
spec fn month_place(doy: int) -> int {
    (5 * doy + 2) / 153
}

proof fn lemma_month_place(doy: int)
    requires
        0 <= doy <= 365,
    ensures
        0 <= month_place(doy) <= 11,
        after_march(0) == 0,
        after_march(1) == 31,
        after_march(2) == 61,
        after_march(3) == 92,
        after_march(4) == 122,
        after_march(5) == 153,
        after_march(6) == 184,
        after_march(7) == 214,
        after_march(8) == 245,
        after_march(9) == 275,
        after_march(10) == 306,
        after_march(11) == 337,
        after_march(month_place(doy)) <= doy,
        month_place(doy) < 11 ==> doy < after_march(month_place(doy) + 1),
{
}

/// The day that lies `doy` days after the first of March of a year of an era.
proof fn lemma_date(era: int, k: int, doy: int)
    requires
        0 <= k < 400,
        0 <= doy <= 365,
        doy == 365 ==> (k + 1) % 4 == 0 && ((k + 1) % 100 != 0 || k == 399),
    ensures
        ({
            let mp = month_place(doy);
            let d = doy - after_march(mp) + 1;
            let m = if mp < 10 {
                mp + 3
            } else {
                mp - 9
            };
            let y = 400 * era + k + if m <= 2 {
                1int
            } else {
                0
            };
            valid_date(y, m, d) && day_number(y, m, d) == 146097 * era + era_days(k) - 719468 + doy
        }),
{
    let mp = month_place(doy);
    let y = 400 * era + k;
    lemma_month_place(doy);
    lemma_march(era, k);
    lemma_month_starts(y);
    lemma_month_starts(y + 1);
    if doy == 365 {
        assert(mp == 11);
        assert((y + 1) % 4 == 0) by {
            assert(y + 1 == 4 * (100 * era) + (k + 1));
        }
        if k == 399 {
            assert((y + 1) % 400 == 0) by {
                assert(y + 1 == 400 * (era + 1));
            }
        } else {
            assert((y + 1) % 100 != 0) by {
                assert(y + 1 == 100 * (4 * era) + (k + 1));
            }
        }
        assert(leap(y + 1));
    }
    if mp == 0 {
    } else if mp == 1 {
    } else if mp == 2 {
    } else if mp == 3 {
    } else if mp == 4 {
    } else if mp == 5 {
    } else if mp == 6 {
    } else if mp == 7 {
    } else if mp == 8 {
    } else if mp == 9 {
    } else if mp == 10 {
    } else {
    }
}

/// The day with a number, where the number is not farther from zero than a time
/// in seconds can reach.
fn civil_from_days(days: i64) -> (r: (i64, u32, u32))
    requires
        -0x1_0000_0000_0000 <= days <= 0x1_0000_0000_0000,
    ensures
        valid_date(r.0 as int, r.1 as int, r.2 as int),
        day_number(r.0 as int, r.1 as int, r.2 as int) == days,
{
    let z: i64 = days + 719_468;
    let era: i64 = if z >= 0 {
        z / 146_097
    } else {
        -((146_096 - z) / 146_097)
    };
    let doe: i64 = z - era * 146_097;
    assert(0 <= doe < 146097);
    let yoe: i64 = (doe - doe / 1460 + doe / 36_524 - doe / 146_096) / 365;
    proof {
        lemma_year_of_era(doe as int);
    }
    let y: i64 = yoe + era * 400;
    let doy: i64 = doe - (365 * yoe + yoe / 4 - yoe / 100);
    proof {
        lemma_date(era as int, yoe as int, doy as int);
        lemma_month_place(doy as int);
    }
    let mp: i64 = (5 * doy + 2) / 153;
    let d: i64 = doy - (153 * mp + 2) / 5 + 1;
    let m: i64 = if mp < 10 {
        mp + 3
    } else {
        mp - 9
    };
    let year: i64 = if m <= 2 {
        y + 1
    } else {
        y
    };
    (year, m as u32, d as u32)
}

/// The number of the day in which a second since the epoch lies.
pub open spec fn day_of(secs: int) -> int {
    secs / 86400
}

/// Whether a second since the epoch lies in a day.
pub open spec fn falls_on(secs: int, y: int, m: int, d: int) -> bool {
    valid_date(y, m, d) && day_number(y, m, d) == day_of(secs)
}

/// Whether a second since the epoch lies in a day of the year `y` that is given
/// by `r`, with the year in 32 bits.
pub open spec fn shown_as(secs: int, y: int, r: (i32, u32, u32)) -> bool {
    falls_on(secs, y, r.1 as int, r.2 as int) && r.0 == y as i32
}

/// The year, month and day in which a second since the epoch lies. The year is
/// given in 32 bits, and cut to them where it needs more.
pub fn ymd_from_unix_secs(secs: i64) -> (r: (i32, u32, u32))
    ensures
        exists|y: int| #[trigger] shown_as(secs as int, y, r),
{
    let days: i64 = if secs >= 0 {
        secs / 86_400
    } else {
        (-((86_399 - secs as i128) / 86_400)) as i64
    };
    assert(days == day_of(secs as int));
    let (y, m, d) = civil_from_days(days);
    let year: i32 =
        #[verifier::truncate]
        (y as i32);
    let r = (year, m, d);
    assert(shown_as(secs as int, y as int, r));
    r
}

proof fn lemma_years_grow(a: int, b: int)
    requires
        a < b,
    ensures
        days_before_year(a + 1) <= days_before_year(b),
    decreases b - a,
{
    if a + 1 < b {
        lemma_years_grow(a, b - 1);
        law_years_follow_each_other(b - 1);
    }
}

proof fn lemma_months_grow(y: int, a: int, b: int)
    requires
        1 <= a < b,
    ensures
        days_before_month(y, a + 1) <= days_before_month(y, b),
    decreases b - a,
{
    if a + 1 < b {
        lemma_months_grow(y, a, b - 1);
    }
}

proof fn lemma_within_year(y: int, m: int, d: int)
    requires
        valid_date(y, m, d),
    ensures
        days_before_year(y) <= day_number(y, m, d) < days_before_year(y + 1),
{
    law_years_follow_each_other(y);
    lemma_month_starts(y);
    lemma_months_grow(y, m, 13);
}

/// Two different days have different numbers.
pub proof fn law_day_numbers_are_unique(y: int, m: int, d: int, y2: int, m2: int, d2: int)
    requires
        valid_date(y, m, d),
        valid_date(y2, m2, d2),
        day_number(y, m, d) == day_number(y2, m2, d2),
    ensures
        y == y2,
        m == m2,
        d == d2,
{
    lemma_within_year(y, m, d);
    lemma_within_year(y2, m2, d2);
    if y < y2 {
        lemma_years_grow(y, y2);
    } else if y2 < y {
        lemma_years_grow(y2, y);
    } else if m < m2 {
        lemma_months_grow(y, m, m2);
    } else if m2 < m {
        lemma_months_grow(y, m2, m);
    }
}

/// As many zeros as are given.
pub open spec fn zeros(n: int) -> Seq<char> {
    Seq::new(
        if n > 0 {
            n as nat
        } else {
            0
        },
        |i: int| '0',
    )
}

/// A number in decimal with at least the given number of characters: zeros stand
/// between its sign and its digits.
pub open spec fn padded(n: int, width: int) -> Seq<char> {
    if n < 0 {
        "-"@ + zeros(width - 1 - decimal((-n) as nat).len()) + decimal((-n) as nat)
    } else {
        zeros(width - decimal(n as nat).len()) + decimal(n as nat)
    }
}

fn pad(digits: &str, width: usize) -> (r: String)
    ensures
        r@ == zeros(width - digits@.len()) + digits@,
{
    let have = crate::text::chars_of(digits).len();
    let mut out = String::new();
    let mut i: usize = have;
    assert(out@ =~= zeros(0));
    while i < width
        invariant
            have <= i,
            i <= width || i == have,
            out@ == zeros(i - have),
        decreases width - i,
    {
        out.push('0');
        i = i + 1;
        assert(out@ =~= zeros(i - have));
    }
    assert(zeros(i - have) =~= zeros(width - digits@.len()));
    cat(out.as_str(), digits)
}

fn show_padded(n: i32, width: usize) -> (r: String)
    requires
        width >= 1,
    ensures
        r@ == padded(n as int, width as int),
{
    if n < 0 {
        let digits = show_u64((-(n as i64)) as u64);
        let body = pad(digits.as_str(), width - 1);
        let r = cat("-", body.as_str());
        assert(r@ =~= padded(n as int, width as int));
        r
    } else {
        let digits = show_u64(n as u64);
        pad(digits.as_str(), width)
    }
}

/// A date as text: four characters for the year, two for the month, two for the
/// day.
pub open spec fn date_text(y: int, m: int, d: int) -> Seq<char> {
    padded(y, 4) + "-"@ + padded(m, 2) + "-"@ + padded(d, 2)
}

/// The date in which a second since the epoch lies, as text.
pub fn date_at(secs: i64) -> (r: String)
    ensures
        exists|y: int, m: int, d: int| #[trigger]
            falls_on(secs as int, y, m, d) && r@ == date_text(y as i32 as int, m, d),
{
    let (y, m, d) = ymd_from_unix_secs(secs);
    let ghost full = choose|f: int| #[trigger] shown_as(secs as int, f, (y, m, d));
    assert(falls_on(secs as int, full, m as int, d as int));
    let head = cat3(
        show_padded(y, 4).as_str(),
        "-",
        pad(show_u64(m as u64).as_str(), 2).as_str(),
    );
    cat3(head.as_str(), "-", pad(show_u64(d as u64).as_str(), 2).as_str())
}

/// The date of today.
pub fn utc_date() -> (r: String)
    ensures
        exists|secs: int, y: int, m: int, d: int| #[trigger]
            falls_on(secs, y, m, d) && r@ == date_text(y as i32 as int, m, d),
{
    date_at(unix_now())
}

proof fn lemma_four_hundred_years(y: int)
    ensures
        leaps(y + 400) == leaps(y) + 97,
{
    assert((y + 400) / 4 == y / 4 + 100);
    assert((y + 400) / 100 == y / 100 + 4);
    assert((y + 400) / 400 == y / 400 + 1);
}

proof fn lemma_leap_rule(y: int)
    ensures
        leap(y) <==> (y % 400 == 0 || (y % 4 == 0 && y % 100 != 0)),
{
    assert(y % 400 == 0 ==> y % 4 == 0);
}

/// The calendar repeats every four hundred years, a year has 365 days or in a leap year 366,
/// and the first day of 1970 has the number nought.
#[verifier::rlimit(40)]
pub proof fn law_years_have_their_days(y: int)
    ensures
        days_before_year(y + 400) - days_before_year(y) == 146097,
        days_before_year(y + 1) - days_before_year(y) == if leap(y) {
            366int
        } else {
            365
        },
        leap(y) <==> (y % 400 == 0 || (y % 4 == 0 && y % 100 != 0)),
        day_number(1970, 1, 1) == 0,
{
    lemma_leaps(y);
    lemma_four_hundred_years(y - 1);
    lemma_leap_rule(y);
}

/// The day after a day has the next number, in the month and across its end.
#[verifier::rlimit(40)]
pub proof fn law_days_follow_each_other(y: int, m: int, d: int)
    requires
        valid_date(y, m, d),
    ensures
        day_number(y, m, d + 1) == day_number(y, m, d) + 1,
        m < 12 && d == month_days(y, m) ==> day_number(y, m + 1, 1) == day_number(y, m, d) + 1,
        month_days(y, 1) == 31 && month_days(y, 3) == 31 && month_days(y, 4) == 30,
        month_days(y, 5) == 31 && month_days(y, 6) == 30 && month_days(y, 7) == 31,
        month_days(y, 8) == 31 && month_days(y, 9) == 30 && month_days(y, 10) == 31,
        month_days(y, 11) == 30 && month_days(y, 12) == 31,
        month_days(y, 2) == if leap(y) {
            29int
        } else {
            28
        },
{
}

/// A day has 86400 seconds, the first of them the one at which it begins.
pub proof fn law_seconds_of_a_day(day: int, s: int)
    requires
        0 <= s < 24 * 60 * 60,
    ensures
        day_of(day * 86400 + s) == day,
{
    assert((day * 86400 + s) / 86400 == day) by (nonlinear_arith)
        requires
            0 <= s < 86400,
    ;
}

/// A date is written with four digits of the year and two each of month and day.
#[verifier::rlimit(40)]
pub proof fn law_dates_have_ten_characters(y: int, m: int, d: int)
    requires
        1000 <= y <= 9999,
        1 <= m <= 12,
        1 <= d <= 31,
    ensures
        date_text(y, m, d).len() == 10,
        date_text(y, m, d)[4] == '-',
        date_text(y, m, d)[7] == '-',
        date_text(y, m, d).take(4) == decimal(y as nat),
        m >= 10 ==> date_text(y, m, d).subrange(5, 7) == decimal(m as nat),
        m < 10 ==> date_text(y, m, d)[5] == '0' && date_text(y, m, d)[6] == decimal(m as nat)[0],
        d >= 10 ==> date_text(y, m, d).skip(8) == decimal(d as nat),
        d < 10 ==> date_text(y, m, d)[8] == '0' && date_text(y, m, d)[9] == decimal(d as nat)[0],
{
    reveal_strlit("-");
    reveal_with_fuel(decimal, 5);
    let t = date_text(y, m, d);
    assert(decimal(y as nat).len() == 4);
    assert(decimal(m as nat).len() == if m < 10 {
        1int
    } else {
        2
    });
    assert(decimal(d as nat).len() == if d < 10 {
        1int
    } else {
        2
    });
    assert(padded(y, 4) =~= decimal(y as nat));
    assert(t.take(4) =~= decimal(y as nat));
    if m >= 10 {
        assert(t.subrange(5, 7) =~= decimal(m as nat));
    }
    if d >= 10 {
        assert(t.skip(8) =~= decimal(d as nat));
    }
}

/// A date that is shown for a second is the date of the day in which the second lies: days
/// have 86400 seconds, and the year is shown as it is where it fits.
pub proof fn law_dates_are_those_of_the_second(secs: int, y: int, r: (i32, u32, u32))
    requires
        shown_as(secs, y, r),
    ensures
        valid_date(y, r.1 as int, r.2 as int),
        day_number(y, r.1 as int, r.2 as int) * 86400 <= secs,
        secs < (day_number(y, r.1 as int, r.2 as int) + 1) * 86400,
        i32::MIN <= y <= i32::MAX ==> r.0 == y,
{
}

} // verus!
