//! Civil calendar date of a block, derived from its header time.
//!
//! Every derived row carries the UTC date of its block.  The derivation
//! from Unix seconds is plain proleptic-Gregorian arithmetic and is
//! verified against the day-count spec below.

use vstd::prelude::*;

verus! {

/// A UTC calendar date.
#[derive(Clone, Copy, Debug, PartialEq, Eq, Structural)]
pub struct DateYmd {
    pub year: u32,
    /// 1 to 12.
    pub month: u32,
    /// 1 to 31.
    pub day: u32,
}

/// Whether the year is a Gregorian leap year.
pub open spec fn spec_is_leap(y: int) -> bool {
    (y % 4 == 0 && y % 100 != 0) || y % 400 == 0
}

/// Days in the year.
pub open spec fn spec_days_in_year(y: int) -> int {
    if spec_is_leap(y) {
        366
    } else {
        365
    }
}

/// Days in the month (1 to 12) of the year.
pub open spec fn spec_days_in_month(y: int, m: int) -> int {
    if m == 2 {
        if spec_is_leap(y) {
            29
        } else {
            28
        }
    } else if m == 4 || m == 6 || m == 9 || m == 11 {
        30
    } else {
        31
    }
}

/// Days from 1970-01-01 to the first day of the year (year at least 1970).
pub open spec fn spec_days_before_year(y: int) -> int
    decreases y - 1970,
{
    if y <= 1970 {
        0
    } else {
        spec_days_before_year(y - 1) + spec_days_in_year(y - 1)
    }
}

/// Days from the first day of the year to the first day of the month.
pub open spec fn spec_days_before_month(y: int, m: int) -> int
    decreases m,
{
    if m <= 1 {
        0
    } else {
        spec_days_before_month(y, m - 1) + spec_days_in_month(y, m - 1)
    }
}

/// The date is a valid calendar date not before 1970.
pub open spec fn spec_valid_date(d: DateYmd) -> bool {
    &&& d.year >= 1970
    &&& 1 <= d.month <= 12
    &&& 1 <= d.day <= spec_days_in_month(d.year as int, d.month as int)
}

/// Days from 1970-01-01 to the date.
pub open spec fn spec_day_number(d: DateYmd) -> int {
    spec_days_before_year(d.year as int) + spec_days_before_month(d.year as int, d.month as int)
        + d.day - 1
}

/// Executable form of [`spec_days_in_year`].
fn days_in_year(y: u32) -> (r: u32)
    ensures
        r == spec_days_in_year(y as int),
{
    if (y % 4 == 0 && y % 100 != 0) || y % 400 == 0 {
        366
    } else {
        365
    }
}

/// Executable form of [`spec_days_in_month`].
fn days_in_month(y: u32, m: u32) -> (r: u32)
    ensures
        r == spec_days_in_month(y as int, m as int),
{
    if m == 2 {
        if (y % 4 == 0 && y % 100 != 0) || y % 400 == 0 {
            29
        } else {
            28
        }
    } else if m == 4 || m == 6 || m == 9 || m == 11 {
        30
    } else {
        31
    }
}

impl DateYmd {
    /// The UTC calendar date of a Unix timestamp.
    ///
    /// The result is the unique valid date whose day count from
    /// 1970-01-01 equals the timestamp's whole days.
    pub fn from_unix(secs: u32) -> (r: DateYmd)
        ensures
            spec_valid_date(r),
            spec_day_number(r) == secs / 86400,
    {
        let total: u32 = secs / 86400;
        let mut days: u32 = total;
        let mut y: u32 = 1970;
        while days >= days_in_year(y)
            invariant
                total <= u32::MAX / 86400,
                spec_days_before_year(y as int) + days == total,
                y >= 1970,
                spec_days_before_year(y as int) >= y - 1970,
            decreases days,
        {
            days = days - days_in_year(y);
            y = y + 1;
        }
        let mut m: u32 = 1;
        while days >= days_in_month(y, m)
            invariant
                spec_days_before_year(y as int) + spec_days_before_month(y as int, m as int)
                    + days == total,
                1 <= m,
                m <= 12,
                days < spec_days_in_year(y as int) - spec_days_before_month(y as int, m as int),
            decreases 12 - m,
        {
            proof {
                lemma_months_cover_year(y as int, m as int);
            }
            days = days - days_in_month(y, m);
            m = m + 1;
        }
        DateYmd { year: y, month: m, day: days + 1 }
    }
}

/// Later months begin no earlier in the year.
proof fn lemma_dbm_mono(y: int, m1: int, m2: int)
    requires
        1 <= m1 <= m2 <= 13,
    ensures
        spec_days_before_month(y, m1) <= spec_days_before_month(y, m2),
    decreases m2 - m1,
{
    if m1 < m2 {
        lemma_dbm_mono(y, m1, m2 - 1);
        assert(spec_days_in_month(y, m2 - 1) > 0);
    }
}

/// Later years begin no earlier in the day count.
proof fn lemma_dby_mono(y1: int, y2: int)
    requires
        y1 <= y2,
    ensures
        spec_days_before_year(y1) <= spec_days_before_year(y2),
    decreases y2 - y1,
{
    if y1 < y2 {
        lemma_dby_mono(y1, y2 - 1);
    }
}

/// A valid date's day count lies within its year's day range.
proof fn lemma_day_number_range(d: DateYmd)
    requires
        spec_valid_date(d),
    ensures
        spec_days_before_year(d.year as int) <= spec_day_number(d),
        spec_day_number(d) < spec_days_before_year(d.year as int + 1),
{
    lemma_dbm_mono(d.year as int, 1, d.month as int);
    lemma_months_cover_year(d.year as int, d.month as int);
    lemma_dbm_mono(d.year as int, d.month as int + 1, 13);
}

/// Two valid dates with the same day count are the same date: the day
/// count determines the calendar date.
pub proof fn lemma_date_unique(a: DateYmd, b: DateYmd)
    requires
        spec_valid_date(a),
        spec_valid_date(b),
        spec_day_number(a) == spec_day_number(b),
    ensures
        a == b,
{
    lemma_day_number_range(a);
    lemma_day_number_range(b);
    if a.year < b.year {
        lemma_dby_mono(a.year as int + 1, b.year as int);
        assert(false);
    }
    if b.year < a.year {
        lemma_dby_mono(b.year as int + 1, a.year as int);
        assert(false);
    }
    let y = a.year as int;
    if a.month < b.month {
        lemma_months_cover_year(y, a.month as int);
        lemma_dbm_mono(y, a.month as int + 1, b.month as int);
        assert(false);
    }
    if b.month < a.month {
        lemma_months_cover_year(y, b.month as int);
        lemma_dbm_mono(y, b.month as int + 1, a.month as int);
        assert(false);
    }
}

/// The days of months 1 to m-1 plus a full month m stay within the year,
/// so a day index below the year's length and at least the month's length
/// leaves room for a further month.
proof fn lemma_months_cover_year(y: int, m: int)
    requires
        1 <= m <= 12,
    ensures
        spec_days_before_month(y, m) + spec_days_in_month(y, m) == spec_days_before_month(
            y,
            m + 1,
        ),
        spec_days_before_month(y, m + 1) <= spec_days_in_year(y),
        spec_days_before_month(y, 13) == spec_days_in_year(y),
{
    assert(spec_days_before_month(y, 13) == spec_days_in_year(y)) by {
        reveal_with_fuel(spec_days_before_month, 14);
    }
    assert forall|k: int| 1 <= k <= 12 implies #[trigger] spec_days_before_month(y, k)
        + spec_days_in_month(y, k) == spec_days_before_month(y, k + 1) by {
        reveal_with_fuel(spec_days_before_month, 14);
    }
    assert forall|k: int| 1 <= k <= 12 implies #[trigger] spec_days_before_month(y, k + 1)
        <= spec_days_before_month(y, 13) by {
        reveal_with_fuel(spec_days_before_month, 14);
    }
}

} // verus!
