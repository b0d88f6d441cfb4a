//! Civil (proleptic Gregorian) calendar arithmetic: days since
//! 1970-01-01 to year, month and day, and the timestamps built from it.
use vstd::prelude::*;

use crate::text::{decimal, push_zero_padded, zero_pad};

verus! {

/// Gregorian leap year.
pub open spec fn is_leap(y: int) -> bool {
    (y % 4 == 0 && y % 100 != 0) || y % 400 == 0
}

pub open spec fn year_len(y: int) -> int {
    if is_leap(y) {
        366
    } else {
        365
    }
}

/// Days in month `m` (1 = January) of year `y`.
pub open spec fn month_len(y: int, m: int) -> int {
    if m == 2 {
        if is_leap(y) {
            29
        } else {
            28
        }
    } else if m == 4 || m == 6 || m == 9 || m == 11 {
        30
    } else {
        31
    }
}

/// Days from 1970-01-01 to January 1 of year `y`.
pub open spec fn days_before_year(y: int) -> int
    decreases y - 1970,
{
    if y <= 1970 {
        0
    } else {
        days_before_year(y - 1) + year_len(y - 1)
    }
}

/// Days from January 1 to the first of month `m` in year `y`.
pub open spec fn days_before_month(y: int, m: int) -> int
    decreases m,
{
    if m <= 1 {
        0
    } else {
        days_before_month(y, m - 1) + month_len(y, m - 1)
    }
}

/// Days from 1970-01-01 to the given date.
pub open spec fn day_number(y: int, m: int, d: int) -> int {
    days_before_year(y) + days_before_month(y, m) + d - 1
}

/// A real calendar date on or after 1970-01-01.
pub open spec fn valid_date(y: int, m: int, d: int) -> bool {
    y >= 1970 && 1 <= m <= 12 && 1 <= d <= month_len(y, m)
}

/// Leap days counted up to (not including) year `y`.
spec fn leaps_before(y: int) -> int {
    (y - 1) / 4 - (y - 1) / 100 + (y - 1) / 400
}

proof fn lemma_days_before_year(y: int)
    requires
        y >= 1970,
    ensures
        days_before_year(y) == 365 * (y - 1970) + leaps_before(y) - 477,
    decreases y - 1970,
{
    if y > 1970 {
        lemma_days_before_year(y - 1);
        lemma_leap_step(y - 1);
        assert(leaps_before(y) == (y - 1) / 4 - (y - 1) / 100 + (y - 1) / 400);
    }
}

/// Days from March 1 to the first of the month `mp` months later.
spec fn march_offset(mp: int) -> int {
    (153 * mp + 2) / 5
}

proof fn lemma_days_before_month(y: int, m: int)
    requires
        1 <= m <= 12,
    ensures
        days_before_month(y, m) == if m <= 2 {
            march_offset(m + 9) - 306
        } else {
            march_offset(m - 3) + 59 + if is_leap(y) {
                1int
            } else {
                0int
            }
        },
{
    reveal_with_fuel(days_before_month, 13);
}

/// The shifted (March-based) year of an era and its length.
proof fn lemma_year_of_era(doe: u32)
    by (bit_vector)
    requires
        doe <= 146096,
    ensures
        ({
            let yoe = (doe - doe / 1460 + doe / 36524 - doe / 146096) / 365;
            let s = 365 * yoe + yoe / 4 - yoe / 100;
            &&& yoe <= 399
            &&& s <= doe
            &&& doe - s <= 365
            &&& doe - s == 365 ==> ((yoe + 1) % 4 == 0 && ((yoe + 1) % 100 != 0 || yoe + 1
                == 400))
        }),
{
}

/// The month and day within a March-based year.
proof fn lemma_month_of_year(doy: u32)
    by (bit_vector)
    requires
        doy <= 365,
    ensures
        ({
            let mp = (5 * doy + 2) / 153;
            let off = (153 * mp + 2) / 5;
            &&& mp <= 11
            &&& off <= doy
            &&& (mp == 0 || mp == 2 || mp == 4 || mp == 5 || mp == 7 || mp == 9 || mp == 10)
                ==> doy - off <= 30
            &&& (mp == 1 || mp == 3 || mp == 6 || mp == 8) ==> doy - off <= 29
            &&& mp == 11 ==> doy - off <= 28 && (doy - off == 28 ==> doy == 365)
        }),
{
}

proof fn lemma_era_split(yp: int, era: int, yoe: int)
    requires
        yp == 400 * era + yoe,
        0 <= yoe < 400,
        era >= 0,
    ensures
        yp / 4 == 100 * era + yoe / 4,
        yp / 100 == 4 * era + yoe / 100,
        yp / 400 == era,
{
}

proof fn lemma_leap_in_era(era: int, k: int)
    requires
        era >= 0,
        1 <= k <= 400,
    ensures
        is_leap(400 * era + k) == (k % 4 == 0 && (k % 100 != 0 || k == 400)),
{
}

proof fn lemma_leap_step(y: int)
    requires
        y >= 1,
    ensures
        leaps_before(y) + (if is_leap(y) {
            1int
        } else {
            0int
        }) == y / 4 - y / 100 + y / 400,
{
}

/// The date the shifted-year arithmetic gives, as integers.
spec fn civil_of(days: int) -> (int, int, int) {
    let z = days + 719468;
    let era = z / 146097;
    let doe = z - era * 146097;
    let yoe = (doe - doe / 1460 + doe / 36524 - doe / 146096) / 365;
    let doy = doe - (365 * yoe + yoe / 4 - yoe / 100);
    let mp = (5 * doy + 2) / 153;
    let d = doy - (153 * mp + 2) / 5 + 1;
    let m = if mp < 10 {
        mp + 3
    } else {
        mp - 9
    };
    let y = if m <= 2 {
        yoe + era * 400 + 1
    } else {
        yoe + era * 400
    };
    (y, m, d)
}

proof fn lemma_civil_of(days: int)
    requires
        days >= 0,
    ensures
        valid_date(civil_of(days).0, civil_of(days).1, civil_of(days).2),
        day_number(civil_of(days).0, civil_of(days).1, civil_of(days).2) == days,
{
    let z = days + 719468;
    let era = z / 146097;
    let doe = z - era * 146097;
    assert(0 <= doe <= 146096);
    assert(era >= 4);
    lemma_year_of_era(doe as u32);
    assert((doe as u32) as int == doe);
    let yoe = (doe - doe / 1460 + doe / 36524 - doe / 146096) / 365;
    let sy = 365 * yoe + yoe / 4 - yoe / 100;
    let doy = doe - sy;
    assert(0 <= yoe <= 399 && 0 <= doy <= 365);
    lemma_month_of_year(doy as u32);
    assert((doy as u32) as int == doy);
    let mp = (5 * doy + 2) / 153;
    let off = (153 * mp + 2) / 5;
    assert(0 <= mp <= 11 && off <= doy);
    let d = doy - off + 1;
    let m = if mp < 10 {
        mp + 3
    } else {
        mp - 9
    };
    let yp = 400 * era + yoe;
    let y = if m <= 2 {
        yp + 1
    } else {
        yp
    };
    assert(civil_of(days) == (y, m, d));
    lemma_era_split(yp, era, yoe);
    if era == 4 {
        assert(yoe >= 369) by {
            if yoe <= 368 {
                assert(sy <= 365 * 368 + 92);
            }
        }
        if yoe == 369 {
            assert(doy >= 306);
            assert(mp >= 10);
        }
    }
    assert(y >= 1970);
    lemma_days_before_year(y);
    lemma_days_before_month(y, m);
    if m <= 2 {
        assert(leaps_before(y) == yp / 4 - yp / 100 + yp / 400);
        if mp == 11 && d == 29 {
            lemma_leap_in_era(era, yoe + 1);
        }
    } else {
        lemma_leap_step(y);
    }
}

/// Year, month and day of the date `days` days after 1970-01-01.
pub fn epoch_days_to_ymd(days: u64) -> (r: (u64, u64, u64))
    requires
        days <= u64::MAX - 719468,
    ensures
        valid_date(r.0 as int, r.1 as int, r.2 as int),
        day_number(r.0 as int, r.1 as int, r.2 as int) == days,
{
    let z = days + 719468;
    let era = z / 146097;
    let doe = z - era * 146097;
    proof {
        lemma_year_of_era(doe as u32);
    }
    let yoe = (doe - doe / 1460 + doe / 36524 - doe / 146096) / 365;
    let y = yoe + era * 400;
    let doy = doe - (365 * yoe + yoe / 4 - yoe / 100);
    proof {
        lemma_month_of_year(doy as u32);
    }
    let mp = (5 * doy + 2) / 153;
    let d = doy - (153 * mp + 2) / 5 + 1;
    let m = if mp < 10 {
        mp + 3
    } else {
        mp - 9
    };
    let y = if m <= 2 {
        y + 1
    } else {
        y
    };
    proof {
        lemma_civil_of(days as int);
        assert(civil_of(days as int) == (y as int, m as int, d as int));
    }
    (y, m, d)
}

/// `n` in decimal, zero-padded to `width` digits.
pub open spec fn padded(n: nat, width: nat) -> Seq<char> {
    zero_pad(decimal(n), width)
}

/// "YYYY-MM-DD".
pub open spec fn ymd_text(y: nat, m: nat, d: nat) -> Seq<char> {
    padded(y, 4) + "-"@ + padded(m, 2) + "-"@ + padded(d, 2)
}

/// "HH:MM:SS" of the time of day `s` seconds after midnight.
pub open spec fn hms_text(s: nat) -> Seq<char> {
    padded(s / 3600, 2) + ":"@ + padded((s % 3600) / 60, 2) + ":"@ + padded(s % 60, 2)
}

/// The text of the date `days` days after 1970-01-01.
pub open spec fn is_date_text(t: Seq<char>, days: int) -> bool {
    exists|y: nat, m: nat, d: nat|
        valid_date(y as int, m as int, d as int) && day_number(y as int, m as int, d as int)
            == days && t == #[trigger] ymd_text(y, m, d)
}

/// Appends "YYYY-MM-DD" for the date `days` days after 1970-01-01.
pub fn push_date(s: &mut String, days: u64)
    requires
        days <= u64::MAX - 719468,
    ensures
        exists|t: Seq<char>| is_date_text(t, days as int) && final(s)@ == old(s)@ + t,
{
    let (y, m, d) = epoch_days_to_ymd(days);
    push_zero_padded(s, y, 4);
    s.push('-');
    push_zero_padded(s, m, 2);
    s.push('-');
    push_zero_padded(s, d, 2);
    proof {
        reveal_strlit("-");
        let t = ymd_text(y as nat, m as nat, d as nat);
        assert(s@ =~= old(s)@ + t);
        assert(is_date_text(t, days as int));
    }
}

/// Appends "HH:MM:SS" for `secs` seconds after midnight.
pub fn push_clock(s: &mut String, secs: u64)
    requires
        secs < 86400,
    ensures
        final(s)@ == old(s)@ + hms_text(secs as nat),
{
    push_zero_padded(s, secs / 3600, 2);
    s.push(':');
    push_zero_padded(s, (secs % 3600) / 60, 2);
    s.push(':');
    push_zero_padded(s, secs % 60, 2);
    proof {
        reveal_strlit(":");
    }
    assert(s@ =~= old(s)@ + hms_text(secs as nat));
}

/// "YYYY-MM-DDTHH:MM:SSZ" (UTC) for `secs` seconds after the epoch.
pub fn iso_utc(secs: u64) -> (r: String)
    ensures
        exists|t: Seq<char>|
            is_date_text(t, secs as int / 86400) && r@ == t + "T"@ + hms_text(
                (secs % 86400) as nat,
            ) + "Z"@,
{
    let mut s = String::new();
    push_date(&mut s, secs / 86400);
    let ghost t = choose|t: Seq<char>| #[trigger] is_date_text(t, secs as int / 86400) && s@ == t;
    s.push('T');
    push_clock(&mut s, secs % 86400);
    s.push('Z');
    proof {
        reveal_strlit("T");
        reveal_strlit("Z");
    }
    assert(s@ =~= t + "T"@ + hms_text((secs % 86400) as nat) + "Z"@);
    s
}

} // verus!
