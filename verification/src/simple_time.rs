//! Civil-calendar decomposition of a count of seconds since the Unix epoch.
//!
//! The calendar deliberately uses a simplified leap rule — every fourth year
//! starting from 1972, with no 100/400-year exception — which is exact within
//! the multi-decade range the ledger operates in.

use vstd::prelude::*;

verus! {

use vstd::arithmetic::div_mod::{
    lemma_div_is_ordered, lemma_div_pos_is_pos, lemma_fundamental_div_mod,
    lemma_div_multiples_vanish, lemma_mod_bound, lemma_mod_mod,
};
use vstd::string::StringExecFns;

/// Number of leap days that fall strictly before January 1st of `year`,
/// counted from 1970, under the four-yearly rule (1972, 1976, ...).
pub open spec fn spec_extra_days(year: int) -> int {
    (year - 1969) / 4
}

/// The four-yearly leap rule: 1972, 1976, ... are leap years.
pub open spec fn spec_is_leap_year(year: int) -> bool {
    (year - 1969) % 4 == 3
}

/// Days from the Unix epoch to January 1st of `year` under the
/// four-yearly leap rule.
pub open spec fn spec_days_to_jan1(year: int) -> int {
    (year - 1970) * 365 + spec_extra_days(year)
}

/// The year that `ts` (seconds since the Unix epoch) falls in: a first
/// estimate divides by the average year, then the estimate is corrected by
/// the leap days accumulated up to that year.
pub open spec fn spec_year(ts: int) -> int {
    let e1 = (ts / 31536000 + 1) / 4;
    (ts - e1 * 86400) / 31536000 + 1970
}

/// Number of leap days since 1970, up to but not including `year`.
pub fn extra_days(year: u64) -> (r: u64)
    requires
        year >= 1969,
    ensures
        r == spec_extra_days(year as int),
{
    (year - 1969) / 4
}

/// Whether `year` is a leap year under the four-yearly rule.
pub fn is_leap_year(year: u64) -> (r: bool)
    requires
        year >= 1969,
    ensures
        r == spec_is_leap_year(year as int),
{
    (year - 1969) % 4 == 3
}

/// Whole days between the Unix epoch and `timestamp_secs`.
pub fn days_since_epoch(timestamp_secs: u64) -> (r: u64)
    ensures
        r == timestamp_secs as int / 86400,
{
    timestamp_secs / 86400
}

/// The leap-day estimate used by `year` never amounts to more seconds than
/// the timestamp itself, so the correction cannot underflow.
proof fn lemma_extra_days_bound(ts: u64)
    ensures
        ((ts as int / 31536000 + 1) / 4) * 86400 <= ts as int,
{
    let t = ts as int;
    let n = t / 31536000;
    let e1 = (n + 1) / 4;
    lemma_div_pos_is_pos(t, 31536000);
    if n <= 2 {
        assert(e1 == 0);
        assert(e1 * 86400 == 0);
    } else {
        // 4 * e1 <= n + 1, hence e1 * 86400 <= 21600 * (n + 1) <= 43200 * n,
        // and n * 31536000 <= t.
        lemma_fundamental_div_mod(n + 1, 4);
        lemma_mod_bound(n + 1, 4);
        assert(4 * e1 <= n + 1);
        assert(e1 * 86400 == (4 * e1) * 21600) by (nonlinear_arith);
        assert((4 * e1) * 21600 <= (n + 1) * 21600) by (nonlinear_arith)
            requires
                4 * e1 <= n + 1,
        ;
        assert((n + 1) * 21600 <= n * 43200) by (nonlinear_arith)
            requires
                n >= 1,
        ;
        assert(n * 43200 <= n * 31536000) by (nonlinear_arith)
            requires
                n >= 0,
        ;
        lemma_fundamental_div_mod(t, 31536000);
        lemma_mod_bound(t, 31536000);
        assert(n * 31536000 <= t);
    }
}

/// January 1st of the computed year lies on or before the timestamp's day,
/// and the leap-day count stays below the number of elapsed years; both are
/// needed to decompose the day of the year without underflow.
proof fn lemma_year_day_bounds(ts: u64)
    ensures
        1970 <= spec_year(ts as int),
        spec_days_to_jan1(spec_year(ts as int)) <= ts as int / 86400,
        spec_extra_days(spec_year(ts as int)) <= spec_year(ts as int) - 1970,
{
    let t = ts as int;
    let n = t / 31536000;
    let e1 = (n + 1) / 4;
    lemma_extra_days_bound(ts);
    let q = (t - e1 * 86400) / 31536000;
    lemma_div_pos_is_pos(t - e1 * 86400, 31536000);
    lemma_fundamental_div_mod(t - e1 * 86400, 31536000);
    lemma_mod_bound(t - e1 * 86400, 31536000);
    assert(31536000 * q <= t - e1 * 86400);
    lemma_div_is_ordered(t - e1 * 86400, t, 31536000);
    lemma_div_pos_is_pos(t, 31536000);
    assert(q <= n);
    let l = (q + 1) / 4;
    lemma_div_is_ordered(q + 1, n + 1, 4);
    assert(l <= e1);
    // days_to_jan1(1970 + q) * 86400 == 31536000 * q + 86400 * l <= t
    assert((365 * q + l) * 86400 == 31536000 * q + 86400 * l) by (nonlinear_arith);
    assert(31536000 * q + 86400 * l <= t);
    // hence 365 * q + l <= t / 86400
    lemma_div_is_ordered((365 * q + l) * 86400, t, 86400);
    lemma_div_multiples_vanish(365 * q + l, 86400);
    assert(86400 * (365 * q + l) == (365 * q + l) * 86400) by (nonlinear_arith);
    assert(365 * q + l <= t / 86400);
    // the leap-day count grows at a quarter of the year count
    lemma_fundamental_div_mod(q + 1, 4);
    lemma_mod_bound(q + 1, 4);
    assert(spec_year(t) == q + 1970);
    assert(spec_days_to_jan1(q + 1970) == 365 * q + l);
}

/// Seconds from the Unix epoch to January 1st of the year 3000 under the
/// four-yearly leap rule; the calendar decomposition is exact below it.
pub const YEAR_3000_SECS: u64 = 32504284800;

/// Below `YEAR_3000_SECS` the year estimate does not overshoot: the
/// timestamp's day still precedes January 1st of the following year.
proof fn lemma_year_upper_bound(ts: u64)
    requires
        ts < 32504284800,
    ensures
        ts as int / 86400 < spec_days_to_jan1(spec_year(ts as int) + 1),
{
    let t = ts as int;
    let n = t / 31536000;
    let e1 = (n + 1) / 4;
    lemma_extra_days_bound(ts);
    let q = (t - e1 * 86400) / 31536000;
    let ds = t / 86400;

    // the timestamp bound keeps the estimates small: n <= 1030, e1 <= 257
    lemma_div_is_ordered(t, 32504284799, 31536000);
    assert(n <= 1030);
    lemma_div_is_ordered(n + 1, 1031, 4);
    assert(e1 <= 257);

    // q >= n - 1: subtracting at most 257 leap days cannot push the
    // corrected timestamp below one whole average year
    lemma_fundamental_div_mod(t, 31536000);
    lemma_mod_bound(t, 31536000);
    assert(t >= 31536000 * n);
    assert(e1 * 86400 <= 22204800);
    assert(t - e1 * 86400 >= 31536000 * (n - 1));
    lemma_div_is_ordered(31536000 * (n - 1), t - e1 * 86400, 31536000);
    lemma_div_multiples_vanish(n - 1, 31536000);
    assert(q >= n - 1);

    // hence the leap estimate stays within the next year's leap count
    lemma_div_is_ordered(n + 1, q + 2, 4);
    assert(e1 <= (q + 2) / 4);

    // t < 31536000 * (q + 1) + 86400 * e1 == 86400 * (365 * (q + 1) + e1)
    lemma_fundamental_div_mod(t - e1 * 86400, 31536000);
    lemma_mod_bound(t - e1 * 86400, 31536000);
    assert(t - e1 * 86400 < 31536000 * (q + 1));
    assert(31536000 * (q + 1) + 86400 * e1 == 86400 * (365 * (q + 1) + e1))
        by (nonlinear_arith);
    assert(t < 86400 * (365 * (q + 1) + e1));

    // so the day count stays under 365 * (q + 1) + e1
    let k = 365 * (q + 1) + e1;
    lemma_div_is_ordered(t, 86400 * k - 1, 86400);
    vstd::arithmetic::div_mod::lemma_fundamental_div_mod_converse(
        86400 * k - 1,
        86400,
        k - 1,
        86399,
    );
    assert(ds <= k - 1);

    assert(spec_year(t) == q + 1970);
    assert(spec_days_to_jan1(q + 1971) == 365 * (q + 1) + (q + 2) / 4);
    assert(ds < spec_days_to_jan1(q + 1971));
}

/// Consecutive New Years lie 365 days apart, 366 when the earlier year is
/// a leap year.
proof fn lemma_jan1_gap(y: int)
    ensures
        spec_days_to_jan1(y + 1) - spec_days_to_jan1(y) == 365 + if spec_is_leap_year(y) {
            1int
        } else {
            0int
        },
{
    let k = y - 1969;
    lemma_fundamental_div_mod(k, 4);
    lemma_mod_bound(k, 4);
    let a = k / 4;
    let r = k % 4;
    if r == 3 {
        vstd::arithmetic::div_mod::lemma_fundamental_div_mod_converse(k + 1, 4, a + 1, 0);
    } else {
        vstd::arithmetic::div_mod::lemma_fundamental_div_mod_converse(k + 1, 4, a, r + 1);
    }
}

/// The year that `timestamp_secs` (seconds since the Unix epoch) falls in.
pub fn year(timestamp_secs: u64) -> (r: u64)
    ensures
        r == spec_year(timestamp_secs as int),
{
    proof {
        lemma_div_pos_is_pos(timestamp_secs as int, 31536000);
        lemma_div_is_ordered(timestamp_secs as int, u64::MAX as int, 31536000);
    }
    let naive_year = timestamp_secs / 31536000 + 1970;
    let ext_d = extra_days(naive_year);
    proof {
        lemma_extra_days_bound(timestamp_secs);
        lemma_div_pos_is_pos(timestamp_secs as int - ext_d as int * 86400, 31536000);
        lemma_div_is_ordered(
            timestamp_secs as int - ext_d as int * 86400,
            u64::MAX as int,
            31536000,
        );
    }
    (timestamp_secs - ext_d * 86400) / 31536000 + 1970
}

/// Day of the current year (1-based): the day count since the epoch minus
/// the days contributed by the already-elapsed years.
pub fn days_in_current_year(year: u64, days_since_epoch: u64, leap_years: u64) -> (r: u64)
    requires
        1970 + leap_years <= year,
        (year - 1970 - leap_years) * 365 + leap_years * 366 <= days_since_epoch,
        days_since_epoch < u64::MAX,
    ensures
        r == days_since_epoch - ((year - 1970 - leap_years) * 365 + leap_years * 366) + 1,
{
    let days_till_this_year = (year - 1970 - leap_years) * 365 + leap_years * 366;
    days_since_epoch - days_till_this_year + 1
}

/// Seconds elapsed within the timestamp's own day.
pub fn seconds_in_day(timestamp_secs: u64, days_since_epoch: u64) -> (r: u64)
    requires
        days_since_epoch * 86400 <= timestamp_secs,
    ensures
        r == timestamp_secs - days_since_epoch * 86400,
{
    timestamp_secs - days_since_epoch * 86400
}

/// Whole hours within a day's worth of seconds.
pub fn hours(seconds_in_day: u64) -> (r: u64)
    ensures
        r == seconds_in_day as int / 3600,
{
    seconds_in_day / 3600
}

/// Whole minutes within the current hour.
pub fn minutes(seconds_in_day: u64, hours: u64) -> (r: u64)
    requires
        hours * 3600 <= seconds_in_day,
    ensures
        r == (seconds_in_day - hours * 3600) / 60,
{
    (seconds_in_day - hours * 3600) / 60
}

/// Seconds within the current minute.
pub fn seconds(seconds_in_day: u64, hours: u64, minutes: u64) -> (r: u64)
    requires
        hours * 3600 + minutes * 60 <= seconds_in_day,
    ensures
        r == seconds_in_day - hours * 3600 - minutes * 60,
{
    (seconds_in_day - hours * 3600) - minutes * 60
}

/// Month boundaries as cumulative day-of-year thresholds
/// (31, 28/29, 31, 30, ...); a leap year shifts every boundary after
/// February by one. A day count outside 1..=365(+1) yields (0, 0).
pub open spec fn spec_day_and_month(d: int, leap: bool) -> (int, int) {
    let a: int = if leap { 1 } else { 0 };
    if d <= 31 { (d, 1) }
    else if d <= 59 + a { (d - 31, 2) }
    else if d <= 90 + a { (d - (59 + a), 3) }
    else if d <= 120 + a { (d - (90 + a), 4) }
    else if d <= 151 + a { (d - (120 + a), 5) }
    else if d <= 181 + a { (d - (151 + a), 6) }
    else if d <= 212 + a { (d - (181 + a), 7) }
    else if d <= 243 + a { (d - (212 + a), 8) }
    else if d <= 273 + a { (d - (243 + a), 9) }
    else if d <= 304 + a { (d - (273 + a), 10) }
    else if d <= 334 + a { (d - (304 + a), 11) }
    else if d <= 365 + a { (d - (334 + a), 12) }
    else { (0, 0) }
}

/// Maps a 1-based day of the year to (day, month).
pub fn day_and_month(days_in_current_year: u64, is_leap_year: bool) -> (r: (u64, u64))
    ensures
        r.0 == spec_day_and_month(days_in_current_year as int, is_leap_year).0,
        r.1 == spec_day_and_month(days_in_current_year as int, is_leap_year).1,
{
    let a: u64 = if is_leap_year { 1 } else { 0 };
    let d = days_in_current_year;
    if d <= 31 { (d, 1) }
    else if d <= 59 + a { (d - 31, 2) }
    else if d <= 90 + a { (d - (59 + a), 3) }
    else if d <= 120 + a { (d - (90 + a), 4) }
    else if d <= 151 + a { (d - (120 + a), 5) }
    else if d <= 181 + a { (d - (151 + a), 6) }
    else if d <= 212 + a { (d - (181 + a), 7) }
    else if d <= 243 + a { (d - (212 + a), 8) }
    else if d <= 273 + a { (d - (243 + a), 9) }
    else if d <= 304 + a { (d - (273 + a), 10) }
    else if d <= 334 + a { (d - (304 + a), 11) }
    else if d <= 365 + a { (d - (334 + a), 12) }
    else { (0, 0) }
}

/// A civil moment in GMT: year, month, day, hour, minute, second, and
/// whether the year is a leap year under the four-yearly rule.
#[derive(Debug, Clone, Copy, PartialEq, Eq, Structural)]
pub struct Moment {
    pub year: u64,
    pub month: u64,
    pub day: u64,
    pub hours: u64,
    pub minutes: u64,
    pub seconds: u64,
    pub is_leap_year: bool,
}

/// The civil moment that `ts` seconds after the Unix epoch falls on:
/// the year from `spec_year`, the day of the year relative to that year's
/// January 1st, and the time of day from the remainder of the day.
pub open spec fn spec_moment(ts: int) -> Moment {
    let y = spec_year(ts);
    let leap = spec_is_leap_year(y);
    let ds = ts / 86400;
    let doy = ds - spec_days_to_jan1(y) + 1;
    let sid = ts % 86400;
    let dm = spec_day_and_month(doy, leap);
    Moment {
        year: y as u64,
        month: dm.1 as u64,
        day: dm.0 as u64,
        hours: (sid / 3600) as u64,
        minutes: (sid % 3600 / 60) as u64,
        seconds: (sid % 60) as u64,
        is_leap_year: leap,
    }
}

impl Moment {
    /// Decomposes a count of seconds since the Unix epoch into a civil
    /// moment, exactly as `spec_moment` describes it.
    pub fn from_duration_since_epoch(secs_since_epoch: u64) -> (m: Moment)
        ensures
            m == spec_moment(secs_since_epoch as int),
    {
        let ts = secs_since_epoch;
        proof {
            lemma_year_day_bounds(ts);
            lemma_div_pos_is_pos(ts as int, 86400);
            lemma_div_is_ordered(ts as int, u64::MAX as int, 86400);
        }
        let y = year(ts);
        let ext = extra_days(y);
        let leap = is_leap_year(y);

        let d_since_epoch = days_since_epoch(ts);
        proof {
            assert((y - 1970 - ext) * 365 + ext * 366 == spec_days_to_jan1(y as int))
                by (nonlinear_arith)
                requires
                    ext == spec_extra_days(y as int),
                    1970 + ext <= y,
            ;
        }
        let d_in_current_year = days_in_current_year(y, d_since_epoch, ext);

        proof {
            lemma_fundamental_div_mod(ts as int, 86400);
            lemma_mod_bound(ts as int, 86400);
        }
        let sec_in_day = seconds_in_day(ts, d_since_epoch);
        proof {
            assert(sec_in_day == ts as int % 86400);
            lemma_fundamental_div_mod(sec_in_day as int, 3600);
            lemma_mod_bound(sec_in_day as int, 3600);
        }
        let hrs = hours(sec_in_day);
        proof {
            assert(sec_in_day - hrs * 3600 == sec_in_day as int % 3600);
            lemma_fundamental_div_mod(sec_in_day as int % 3600, 60);
            lemma_mod_bound(sec_in_day as int % 3600, 60);
        }
        let mins = minutes(sec_in_day, hrs);
        let secs = seconds(sec_in_day, hrs, mins);
        proof {
            assert(secs == (sec_in_day as int % 3600) % 60);
            lemma_mod_mod(sec_in_day as int, 60, 60);
            assert(secs == sec_in_day as int % 60);
        }

        let (day, month) = day_and_month(d_in_current_year, leap);
        Moment { year: y, month, day, hours: hrs, minutes: mins, seconds: secs, is_leap_year: leap }
    }
}

/// Day of the year (0-based) on which `month` begins.
pub open spec fn spec_days_before_month(month: int, leap: bool) -> int {
    let a: int = if leap { 1 } else { 0 };
    if month == 1 { 0 }
    else if month == 2 { 31 }
    else if month == 3 { 59 + a }
    else if month == 4 { 90 + a }
    else if month == 5 { 120 + a }
    else if month == 6 { 151 + a }
    else if month == 7 { 181 + a }
    else if month == 8 { 212 + a }
    else if month == 9 { 243 + a }
    else if month == 10 { 273 + a }
    else if month == 11 { 304 + a }
    else { 334 + a }
}

/// Within a year, the day-of-year table inverts cleanly: the month is in
/// civil range and the finished months plus the day give back the day of
/// the year.
proof fn lemma_day_and_month_civil(d: int, leap: bool)
    requires
        1 <= d <= 365 + if leap { 1int } else { 0int },
    ensures
        1 <= spec_day_and_month(d, leap).1 <= 12,
        1 <= spec_day_and_month(d, leap).0 <= 31,
        spec_days_before_month(spec_day_and_month(d, leap).1, leap) + spec_day_and_month(
            d,
            leap,
        ).0 == d,
{
}

/// The second count a civil moment names: the days to its January 1st, the
/// days of the finished months, the finished days, then the time of day.
pub open spec fn spec_secs_of_moment(m: Moment) -> int {
    (spec_days_to_jan1(m.year as int) + spec_days_before_month(m.month as int, m.is_leap_year) + (
    m.day - 1)) * 86400 + m.hours * 3600 + m.minutes * 60 + m.seconds
}

/// Calendar round-trip: up to the year 3000, the civil fields of a moment
/// are in civil range and name exactly the second count they came from —
/// no two second counts share a rendering, and none is shifted.
pub proof fn lemma_moment_round_trip(ts: u64)
    requires
        ts < YEAR_3000_SECS,
    ensures
        ({
            let m = spec_moment(ts as int);
            &&& spec_secs_of_moment(m) == ts
            &&& 1970 <= m.year
            &&& 1 <= m.month <= 12
            &&& 1 <= m.day <= 31
            &&& m.hours < 24
            &&& m.minutes < 60
            &&& m.seconds < 60
            &&& m.is_leap_year == spec_is_leap_year(m.year as int)
        }),
{
    let t = ts as int;
    let y = spec_year(t);
    let leap = spec_is_leap_year(y);
    let ds = t / 86400;
    let doy = ds - spec_days_to_jan1(y) + 1;
    let sid = t % 86400;

    lemma_year_day_bounds(ts);
    lemma_year_upper_bound(ts);
    lemma_jan1_gap(y);
    assert(1 <= doy <= 365 + if leap { 1int } else { 0int });
    lemma_day_and_month_civil(doy, leap);

    // the year fits the stored field: it grows no faster than the naive
    // estimate
    lemma_div_is_ordered(t, 32504284799, 31536000);
    lemma_div_pos_is_pos(t - (t / 31536000 + 1) / 4 * 86400, 31536000);
    lemma_extra_days_bound(ts);
    lemma_div_is_ordered(t - (t / 31536000 + 1) / 4 * 86400, 32504284799, 31536000);
    assert(1970 <= y <= 3000);

    // the time of day decomposes and recomposes exactly
    lemma_fundamental_div_mod(t, 86400);
    lemma_mod_bound(t, 86400);
    lemma_fundamental_div_mod(sid, 3600);
    lemma_mod_bound(sid, 3600);
    lemma_fundamental_div_mod(sid % 3600, 60);
    lemma_mod_bound(sid % 3600, 60);
    lemma_mod_mod(sid, 60, 60);
    assert(3600 * (sid / 3600) + 60 * (sid % 3600 / 60) + sid % 60 == sid);
    lemma_div_is_ordered(sid, 86399, 3600);
    lemma_div_is_ordered(sid % 3600, 3599, 60);

    let m = spec_moment(t);
    assert(spec_days_to_jan1(m.year as int) + spec_days_before_month(
        m.month as int,
        m.is_leap_year,
    ) + (m.day - 1) == ds);
    assert((ds * 86400 + sid == t));
    assert(spec_secs_of_moment(m) == ts) by (nonlinear_arith)
        requires
            spec_secs_of_moment(m) == (spec_days_to_jan1(m.year as int) + spec_days_before_month(
                m.month as int,
                m.is_leap_year,
            ) + (m.day - 1)) * 86400 + m.hours * 3600 + m.minutes * 60 + m.seconds,
            spec_days_to_jan1(m.year as int) + spec_days_before_month(
                m.month as int,
                m.is_leap_year,
            ) + (m.day - 1) == ds,
            m.hours == sid / 3600,
            m.minutes == sid % 3600 / 60,
            m.seconds == sid % 60,
            3600 * (sid / 3600) + 60 * (sid % 3600 / 60) + sid % 60 == sid,
            ds * 86400 + sid == t,
            t == ts,
    ;
}

#[verifier::external_type_specification]
#[verifier::external_body]
pub struct ExSystemTime(std::time::SystemTime);

/// Relies on std::time::SystemTime::now: the current wall-clock time.
/// Nothing can be promised of the value.
#[verifier::external_body]
pub(crate) fn system_time_now() -> (t: std::time::SystemTime) {
    std::time::SystemTime::now()
}

/// Relies on SystemTime::duration_since (with Duration::as_secs converting
/// the result): the whole seconds from the Unix epoch to `time`, or None if
/// `time` precedes the epoch. Nothing can be promised of the value.
#[verifier::external_body]
pub(crate) fn secs_since_unix_epoch(time: &std::time::SystemTime) -> (r: Option<u64>) {
    time.duration_since(std::time::SystemTime::UNIX_EPOCH).ok().map(|d| d.as_secs())
}

impl Moment {
    /// The civil moment of a system timestamp, or `None` for one before the
    /// Unix epoch. Whatever the clock reads, the result decomposes some
    /// second count as `spec_moment` describes.
    pub fn from_sys_time(time: std::time::SystemTime) -> (r: Option<Moment>)
        ensures
            r matches Some(m) ==> exists|s: u64| m == spec_moment(s as int),
    {
        match secs_since_unix_epoch(&time) {
            Some(s) => {
                let m = Self::from_duration_since_epoch(s);
                Some(m)
            },
            None => None,
        }
    }

    /// The civil moment of the present wall-clock time, or `None` on a clock
    /// set before the Unix epoch.
    pub fn new() -> (r: Option<Moment>)
        ensures
            r matches Some(m) ==> exists|s: u64| m == spec_moment(s as int),
    {
        Self::from_sys_time(system_time_now())
    }
}

/// The single decimal digit `d` (0..=9) as a one-character string view.
pub open spec fn spec_digit_str(d: int) -> Seq<char> {
    if d == 0 { "0"@ }
    else if d == 1 { "1"@ }
    else if d == 2 { "2"@ }
    else if d == 3 { "3"@ }
    else if d == 4 { "4"@ }
    else if d == 5 { "5"@ }
    else if d == 6 { "6"@ }
    else if d == 7 { "7"@ }
    else if d == 8 { "8"@ }
    else { "9"@ }
}

/// Decimal rendering of a non-negative number, most significant digit first.
pub open spec fn spec_digits(n: int) -> Seq<char>
    decreases n,
{
    if n < 10 {
        spec_digit_str(n)
    } else {
        spec_digits(n / 10) + spec_digit_str(n % 10)
    }
}

/// Decimal rendering padded on the left to at least two digits.
pub open spec fn spec_pad2(n: int) -> Seq<char> {
    if n < 10 { "0"@ + spec_digits(n) } else { spec_digits(n) }
}

fn digit_str(d: u64) -> (r: &'static str)
    requires
        d < 10,
    ensures
        r@ == spec_digit_str(d as int),
{
    match d {
        0 => "0",
        1 => "1",
        2 => "2",
        3 => "3",
        4 => "4",
        5 => "5",
        6 => "6",
        7 => "7",
        8 => "8",
        _ => "9",
    }
}

/// Renders a number in decimal.
pub fn u64_to_string(n: u64) -> (s: String)
    ensures
        s@ == spec_digits(n as int),
    decreases n,
{
    if n < 10 {
        digit_str(n).to_owned()
    } else {
        proof {
            lemma_div_pos_is_pos(n as int, 10);
            lemma_div_is_ordered(n as int, u64::MAX as int, 10);
            lemma_mod_bound(n as int, 10);
        }
        let mut s = u64_to_string(n / 10);
        s.append(digit_str(n % 10));
        s
    }
}

impl Moment {
    /// Pads a unit of time on the left with a zero, for display.
    pub fn add_leading_zero(x: u64) -> (r: String)
        ensures
            r@ == spec_pad2(x as int),
    {
        if x < 10 {
            let mut s = String::from_str("0");
            s.append(u64_to_string(x).as_str());
            s
        } else {
            u64_to_string(x)
        }
    }
}

/// The RFC 3339 rendering of a moment — `2006-01-02T15:04:05` — followed by
/// the configured offset designator.
pub open spec fn spec_rfc3339(m: Moment, offset: Seq<char>) -> Seq<char> {
    spec_digits(m.year as int) + "-"@ + spec_pad2(m.month as int) + "-"@ + spec_pad2(m.day as int)
        + "T"@ + spec_pad2(m.hours as int) + ":"@ + spec_pad2(m.minutes as int) + ":"@
        + spec_pad2(m.seconds as int) + offset
}

impl Moment {
    /// Renders the moment in RFC 3339 form with the given offset designator
    /// (`+00:00`, `Z`, or a fixed local offset, per deployment).
    pub fn to_string_with_offset(&self, offset: &str) -> (r: String)
        ensures
            r@ == spec_rfc3339(*self, offset@),
    {
        let mut s = u64_to_string(self.year);
        s.append("-");
        s.append(Self::add_leading_zero(self.month).as_str());
        s.append("-");
        s.append(Self::add_leading_zero(self.day).as_str());
        s.append("T");
        s.append(Self::add_leading_zero(self.hours).as_str());
        s.append(":");
        s.append(Self::add_leading_zero(self.minutes).as_str());
        s.append(":");
        s.append(Self::add_leading_zero(self.seconds).as_str());
        s.append(offset);
        proof {
            assert(s@ =~= spec_rfc3339(*self, offset@));
        }
        s
    }

    /// Renders the moment in RFC 3339 form with the UTC designator `+00:00`.
    pub fn to_rfc3339_string(&self) -> (r: String)
        ensures
            r@ == spec_rfc3339(*self, "+00:00"@),
    {
        self.to_string_with_offset("+00:00")
    }
}

/// Returns the month tuple — number, English name, days in an average year —
/// for a month number in 1..=12, and `None` otherwise.
pub fn month(m: usize) -> (r: Option<(u32, &'static str, u32)>)
    ensures
        1 <= m <= 12 <==> r is Some,
        m == 1 ==> (r matches Some(t) && t.0 == 1 && t.1@ == "January"@ && t.2 == 31),
        m == 2 ==> (r matches Some(t) && t.0 == 2 && t.1@ == "February"@ && t.2 == 28),
        m == 3 ==> (r matches Some(t) && t.0 == 3 && t.1@ == "March"@ && t.2 == 31),
        m == 4 ==> (r matches Some(t) && t.0 == 4 && t.1@ == "April"@ && t.2 == 30),
        m == 5 ==> (r matches Some(t) && t.0 == 5 && t.1@ == "May"@ && t.2 == 31),
        m == 6 ==> (r matches Some(t) && t.0 == 6 && t.1@ == "June"@ && t.2 == 30),
        m == 7 ==> (r matches Some(t) && t.0 == 7 && t.1@ == "July"@ && t.2 == 31),
        m == 8 ==> (r matches Some(t) && t.0 == 8 && t.1@ == "August"@ && t.2 == 31),
        m == 9 ==> (r matches Some(t) && t.0 == 9 && t.1@ == "September"@ && t.2 == 30),
        m == 10 ==> (r matches Some(t) && t.0 == 10 && t.1@ == "October"@ && t.2 == 31),
        m == 11 ==> (r matches Some(t) && t.0 == 11 && t.1@ == "November"@ && t.2 == 30),
        m == 12 ==> (r matches Some(t) && t.0 == 12 && t.1@ == "December"@ && t.2 == 31),
{
    match m {
        1 => Some((1, "January", 31)),
        2 => Some((2, "February", 28)),
        3 => Some((3, "March", 31)),
        4 => Some((4, "April", 30)),
        5 => Some((5, "May", 31)),
        6 => Some((6, "June", 30)),
        7 => Some((7, "July", 31)),
        8 => Some((8, "August", 31)),
        9 => Some((9, "September", 30)),
        10 => Some((10, "October", 31)),
        11 => Some((11, "November", 30)),
        12 => Some((12, "December", 31)),
        _ => None,
    }
}

} // verus!
