//! Timestamps as RFC 3339 text (UTC, millisecond precision), as the task
//! descriptors carry them.
use vstd::prelude::*;
use crate::text::{decimal, decimal_string};

verus! {

/// Whether `y` is a leap year of the Gregorian calendar.
pub open spec fn is_leap(y: int) -> bool {
    (y % 4 == 0 && y % 100 != 0) || y % 400 == 0
}

/// The number of days of year `y`.
pub open spec fn year_days(y: int) -> int {
    if is_leap(y) {
        366
    } else {
        365
    }
}

/// The number of days of month `m` (1 to 12) of year `y`.
pub open spec fn month_days(y: int, m: int) -> int {
    if m == 2 {
        if is_leap(y) {
            29
        } else {
            28
        }
    } else if m == 4 || m == 6 || m == 9 || m == 11 {
        30
    } else {
        31
    }
}

/// The days from 1970-01-01 to the first of January of year `y` (from 1970 on).
pub open spec fn days_before_year(y: int) -> int
    decreases y - 1970,
{
    if y <= 1970 {
        0
    } else {
        days_before_year(y - 1) + year_days(y - 1)
    }
}

/// The days from the first of January to the first of month `m` of year `y`.
pub open spec fn days_before_month(y: int, m: int) -> int
    decreases m,
{
    if m <= 1 {
        0
    } else {
        days_before_month(y, m - 1) + month_days(y, m - 1)
    }
}

/// The number of days since 1970-01-01 of the date `y`-`m`-`d`.
pub open spec fn epoch_day(y: int, m: int, d: int) -> int {
    days_before_year(y) + days_before_month(y, m) + d - 1
}

/// `y`-`m`-`d` is a date from 1970 on.
pub open spec fn valid_date(y: int, m: int, d: int) -> bool {
    y >= 1970 && 1 <= m <= 12 && 1 <= d <= month_days(y, m)
}

/// A number in decimal, padded with zeros to `width` digits.
pub open spec fn padded(n: nat, width: nat) -> Seq<char> {
    let digits = decimal(n);
    if digits.len() >= width {
        digits
    } else {
        Seq::new((width - digits.len()) as nat, |i: int| '0') + digits
    }
}

/// The RFC 3339 text of a date and a time of day in milliseconds.
pub open spec fn rfc3339_text(y: int, m: int, d: int, ms_of_day: nat) -> Seq<char> {
    padded(y as nat, 4) + "-"@ + padded(m as nat, 2) + "-"@ + padded(d as nat, 2) + "T"@ + padded(
        ms_of_day / 3600000,
        2,
    ) + ":"@ + padded((ms_of_day / 60000) % 60, 2) + ":"@ + padded((ms_of_day / 1000) % 60, 2) + "."@
        + padded(ms_of_day % 1000, 3) + "Z"@
}

/// Later years start at least a year later.
proof fn lemma_years_apart(y1: int, y2: int)
    requires
        1970 <= y1 < y2,
    ensures
        days_before_year(y2) >= days_before_year(y1) + year_days(y1),
    decreases y2 - y1,
{
    if y2 - 1 > y1 {
        lemma_years_apart(y1, y2 - 1);
    }
}

/// Later months of a year start at least a month later.
proof fn lemma_months_apart(y: int, m1: int, m2: int)
    requires
        1 <= m1 < m2,
    ensures
        days_before_month(y, m2) >= days_before_month(y, m1) + month_days(y, m1),
    decreases m2 - m1,
{
    if m2 - 1 > m1 {
        lemma_months_apart(y, m1, m2 - 1);
    }
}

/// A date's day falls inside its year.
proof fn lemma_day_in_year(y: int, m: int, d: int)
    requires
        valid_date(y, m, d),
    ensures
        days_before_month(y, m) + d - 1 < year_days(y),
{
    reveal_with_fuel(days_before_month, 13);
    if m < 12 {
        lemma_months_apart(y, m, 12);
    }
}

/// Different dates from 1970 on have different day numbers, so a day
/// number names at most one date.
pub proof fn law_epoch_day_is_injective(y1: int, m1: int, d1: int, y2: int, m2: int, d2: int)
    requires
        valid_date(y1, m1, d1),
        valid_date(y2, m2, d2),
        epoch_day(y1, m1, d1) == epoch_day(y2, m2, d2),
    ensures
        y1 == y2 && m1 == m2 && d1 == d2,
{
    lemma_day_in_year(y1, m1, d1);
    lemma_day_in_year(y2, m2, d2);
    if m1 > 1 {
        lemma_months_apart(y1, 1, m1);
    }
    if m2 > 1 {
        lemma_months_apart(y2, 1, m2);
    }
    if y1 < y2 {
        lemma_years_apart(y1, y2);
    } else if y2 < y1 {
        lemma_years_apart(y2, y1);
    } else if m1 < m2 {
        lemma_months_apart(y1, m1, m2);
    } else if m2 < m1 {
        lemma_months_apart(y1, m2, m1);
    }
}

fn pad(n: u64, width: usize) -> (r: String)
    requires
        width <= 4,
    ensures
        r@ == padded(n as nat, width as nat),
{
    let digits = decimal_string(n);
    let len = digits.as_str().unicode_len();
    if len >= width {
        return digits;
    }
    let mut r = String::new();
    let mut i: usize = 0;
    while i < width - len
        invariant
            len < width,
            i <= width - len,
            r@ == Seq::new(i as nat, |k: int| '0'),
        decreases width - len - i,
    {
        r.append("0");
        proof {
            reveal_strlit("0");
            assert(r@ =~= Seq::new((i + 1) as nat, |k: int| '0'));
        }
        i = i + 1;
    }
    r.append(digits.as_str());
    r
}

/// The RFC 3339 text (UTC, with milliseconds) of a time given in
/// milliseconds since the Unix epoch: the calendar date whose day number
/// is the whole days elapsed, and the time of day of the rest.
pub fn rfc3339_millis(ms: u64) -> (r: String)
    ensures
        exists|y: int, m: int, d: int|
            valid_date(y, m, d) && epoch_day(y, m, d) == ms / 86400000 && r@ == rfc3339_text(
                y,
                m,
                d,
                (ms % 86400000) as nat,
            ),
{
    let total: u64 = ms / 86400000;
    let mut rem: u64 = total;
    let mut y: u64 = 1970;
    loop
        invariant
            total == ms / 86400000,
            1970 <= y <= 1970 + total,
            rem <= total,
            days_before_year(y as int) + rem == total,
            days_before_year(y as int) >= y - 1970,
        ensures
            1970 <= y,
            days_before_year(y as int) + rem == total,
            rem < year_days(y as int),
        decreases rem,
    {
        let leap_year = (y % 4 == 0 && y % 100 != 0) || y % 400 == 0;
        let len: u64 = if leap_year {
            366
        } else {
            365
        };
        assert(len == year_days(y as int));
        if rem < len {
            break;
        }
        rem = rem - len;
        assert(days_before_year(y + 1) == days_before_year(y as int) + year_days(y as int));
        y = y + 1;
    }
    assert(rem < year_days(y as int));
    let mut m: u64 = 1;
    let leap = (y % 4 == 0 && y % 100 != 0) || y % 400 == 0;
    assert(leap == is_leap(y as int));
    loop
        invariant
            1 <= m <= 12,
            leap == is_leap(y as int),
            days_before_year(y as int) + days_before_month(y as int, m as int) + rem == total,
            days_before_month(y as int, m as int) + rem < year_days(y as int),
        ensures
            1 <= m <= 12,
            days_before_year(y as int) + days_before_month(y as int, m as int) + rem == total,
            rem < month_days(y as int, m as int),
        decreases 12 - m,
    {
        let len: u64 = if m == 2 {
            if leap { 29 } else { 28 }
        } else if m == 4 || m == 6 || m == 9 || m == 11 {
            30
        } else {
            31
        };
        assert(len == month_days(y as int, m as int));
        if rem < len {
            break;
        }
        proof {
            if m == 12 {
                reveal_with_fuel(days_before_month, 13);
                assert(days_before_month(y as int, 12) + 31 == year_days(y as int));
            }
        }
        rem = rem - len;
        m = m + 1;
    }
    let day = rem + 1;
    let t = ms % 86400000;
    let mut s = pad(y, 4);
    s.append("-");
    let mm = pad(m, 2);
    s.append(mm.as_str());
    s.append("-");
    let dd = pad(day, 2);
    s.append(dd.as_str());
    s.append("T");
    let hh = pad(t / 3600000, 2);
    s.append(hh.as_str());
    s.append(":");
    let mi = pad((t / 60000) % 60, 2);
    s.append(mi.as_str());
    s.append(":");
    let se = pad((t / 1000) % 60, 2);
    s.append(se.as_str());
    s.append(".");
    let ml = pad(t % 1000, 3);
    s.append(ml.as_str());
    s.append("Z");
    assert(valid_date(y as int, m as int, day as int));
    assert(epoch_day(y as int, m as int, day as int) == ms / 86400000);
    assert(s@ == rfc3339_text(y as int, m as int, day as int, t as nat));
    s
}

} // verus!
