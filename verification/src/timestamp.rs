//! Times of day as plain values: a moment is the pair of its Unix timestamp
//! in whole seconds and the nanoseconds past that second (`chrono`'s
//! `timestamp` and `timestamp_subsec_nanos`; a leap second carries 10^9 or
//! more nanoseconds). The order of moments and the whole days between two of
//! them, as `chrono` computes them on `NaiveDateTime`, are stated here and
//! proved.

use vstd::prelude::*;
use vstd::arithmetic::div_mod::{lemma_fundamental_div_mod, lemma_fundamental_div_mod_converse};
use vstd::arithmetic::div_mod::lemma_div_is_ordered;

use crate::clock::utc_now;

verus! {

/// The moment a stored time names, when `chrono::NaiveDateTime::parse_from_str`
/// reads the text in the format "%Y-%m-%dT%H:%M:%S%.f"; parsing depends on
/// the text alone.
pub uninterp spec fn naive_time_of(s: Seq<char>) -> Option<(i64, u32)>;

/// Reads a stored time as a moment.
///
/// Trusted: wraps `chrono::NaiveDateTime::parse_from_str` with the format
/// "%Y-%m-%dT%H:%M:%S%.f"; the parsed time is converted to its timestamp and
/// sub-second nanoseconds (`and_utc().timestamp()`,
/// `and_utc().timestamp_subsec_nanos()`). Claimed: the result is the name
/// `naive_time_of` applied to the text.
#[verifier::external_body]
pub(crate) fn parse_naive_time(s: &str) -> (r: Option<(i64, u32)>)
    ensures
        r == naive_time_of(s@),
{
    match chrono::NaiveDateTime::parse_from_str(s, "%Y-%m-%dT%H:%M:%S%.f") {
        Ok(t) => Some((t.and_utc().timestamp(), t.and_utc().timestamp_subsec_nanos())),
        Err(_) => None,
    }
}

/// The moment an RFC 3339 time names, converted to UTC, when
/// `chrono::DateTime::parse_from_rfc3339` reads the text; parsing depends on
/// the text alone.
pub uninterp spec fn rfc3339_time_of(s: Seq<char>) -> Option<(i64, u32)>;

/// Reads an RFC 3339 time as a UTC moment.
///
/// Trusted: wraps `chrono::DateTime::parse_from_rfc3339`; the parsed time is
/// converted to its UTC timestamp and sub-second nanoseconds (`timestamp`,
/// `timestamp_subsec_nanos`). Claimed: the result is the name
/// `rfc3339_time_of` applied to the text.
#[verifier::external_body]
fn parse_rfc3339_time(s: &str) -> (r: Option<(i64, u32)>)
    ensures
        r == rfc3339_time_of(s@),
{
    match chrono::DateTime::parse_from_rfc3339(s) {
        Ok(t) => Some((t.timestamp(), t.timestamp_subsec_nanos())),
        Err(_) => None,
    }
}

/// `a` is later than `b`, as `NaiveDateTime` orders them: by timestamp, then
/// by the nanoseconds past it.
pub open spec fn later(a: (i64, u32), b: (i64, u32)) -> bool {
    a.0 > b.0 || (a.0 == b.0 && a.1 > b.1)
}

/// The second of the day a timestamp falls in.
pub open spec fn second_of_day(ts: i64) -> int {
    (ts as int) % 86400
}

/// The correction for a leap second on either side of a subtraction, as
/// `NaiveTime::signed_duration_since` makes it.
pub open spec fn leap_correction(now: (i64, u32), t: (i64, u32)) -> int {
    if second_of_day(now.0) > second_of_day(t.0) && t.1 >= 1_000_000_000 {
        1
    } else if second_of_day(now.0) < second_of_day(t.0) && now.1 >= 1_000_000_000 {
        -1
    } else {
        0
    }
}

/// The whole seconds of `now - t` as `TimeDelta::num_seconds` gives them:
/// the duration is kept as seconds plus nanoseconds in `0..10^9`, and a
/// negative duration with nanoseconds counts one second less in magnitude.
pub open spec fn whole_seconds(now: (i64, u32), t: (i64, u32)) -> int {
    let frac = now.1 as int - t.1 as int;
    let secs = (now.0 as int - t.0 as int) + leap_correction(now, t) + frac / 1_000_000_000;
    let nanos = frac % 1_000_000_000;
    if secs < 0 && nanos > 0 { secs + 1 } else { secs }
}

/// The whole days of `now - t`, as `TimeDelta::num_days` gives them: whole
/// seconds divided by 86400, truncated toward zero.
pub open spec fn whole_days(now: (i64, u32), t: (i64, u32)) -> int {
    let s = whole_seconds(now, t);
    if s >= 0 { s / 86400 } else { -((-s) / 86400) }
}

/// Moments are strictly and totally ordered by `later`.
pub proof fn lemma_later_is_strict_order(a: (i64, u32), b: (i64, u32), c: (i64, u32))
    ensures
        !later(a, a),
        later(a, b) ==> !later(b, a),
        later(a, b) && later(b, c) ==> later(a, c),
        a != b ==> later(a, b) || later(b, a),
{
}

/// Between moments that are not leap seconds, the whole seconds and whole
/// days are the exact difference truncated toward zero: they change sign
/// when the moments are swapped, are zero from a moment to itself, and
/// with equal nanoseconds the days are the difference of the timestamps
/// divided by 86400, truncated toward zero.
pub proof fn lemma_whole_days_truncate(now: (i64, u32), t: (i64, u32))
    requires
        now.1 < 1_000_000_000,
        t.1 < 1_000_000_000,
    ensures
        whole_seconds(now, now) == 0,
        whole_days(now, now) == 0,
        whole_seconds(now, t) == -whole_seconds(t, now),
        whole_days(now, t) == -whole_days(t, now),
        later(now, t) ==> whole_seconds(now, t) >= 0,
        now.1 == t.1 ==> whole_seconds(now, t) == now.0 - t.0,
        now.1 == t.1 ==> whole_days(now, t) == (if now.0 >= t.0 {
            (now.0 - t.0) / 86400
        } else {
            -((t.0 - now.0) / 86400)
        }),
{
    assert(leap_correction(now, t) == 0);
    assert(leap_correction(t, now) == 0);
    assert(leap_correction(now, now) == 0);
    let frac = now.1 as int - t.1 as int;
    if frac >= 0 {
        assert(frac / 1_000_000_000 == 0);
        assert(frac % 1_000_000_000 == frac);
        assert((-frac) / 1_000_000_000 == if frac == 0 { 0int } else { -1int });
        assert((-frac) % 1_000_000_000 == if frac == 0 { 0int } else { 1_000_000_000 - frac });
    } else {
        assert(frac / 1_000_000_000 == -1);
        assert(frac % 1_000_000_000 == frac + 1_000_000_000);
        assert((-frac) / 1_000_000_000 == 0);
        assert((-frac) % 1_000_000_000 == -frac);
    }
    assert(0int / 1_000_000_000 == 0 && 0int % 1_000_000_000 == 0);
    let s = whole_seconds(now, t);
    if s < 0 {
        assert(-s > 0);
    }
}

/// Whether `a` is later than `b`.
pub fn is_later(a: (i64, u32), b: (i64, u32)) -> (r: bool)
    ensures
        r == later(a, b),
{
    a.0 > b.0 || (a.0 == b.0 && a.1 > b.1)
}

/// The second of the day a timestamp falls in.
fn day_second(ts: i64) -> (s: i128)
    ensures
        s == second_of_day(ts),
        0 <= s < 86400,
{
    // A multiple of 86400 no smaller than 2^63, to make every timestamp
    // non-negative.
    let shift: i128 = 9223372036854806400;
    let shifted: u128 = (ts as i128 + shift) as u128;
    let q: u128 = shifted / 86400;
    let r: u128 = shifted % 86400;
    proof {
        lemma_fundamental_div_mod(shifted as int, 86400);
        assert(ts as int == (q as int - 106751991167301) * 86400 + r as int) by (nonlinear_arith)
            requires
                shifted as int == 86400 * (shifted as int / 86400) + shifted as int % 86400,
                q as int == shifted as int / 86400,
                r as int == shifted as int % 86400,
                shifted as int == ts as int + 9223372036854806400,
        ;
        lemma_fundamental_div_mod_converse(ts as int, 86400, q as int - 106751991167301, r as int);
    }
    r as i128
}

/// The whole days from `t` to `now`, truncated toward zero.
pub fn days_between(now: (i64, u32), t: (i64, u32)) -> (d: i64)
    ensures
        d == whole_days(now, t),
{
    let sn = day_second(now.0);
    let st = day_second(t.0);
    let leap: i128 = if sn > st && t.1 >= 1_000_000_000 {
        1
    } else if sn < st && now.1 >= 1_000_000_000 {
        -1
    } else {
        0
    };
    // The nanosecond difference, shifted by five seconds to be non-negative.
    let frac: i128 = now.1 as i128 - t.1 as i128;
    let shifted: u128 = (frac + 5_000_000_000) as u128;
    let q5: u128 = shifted / 1_000_000_000;
    let nanos: u128 = shifted % 1_000_000_000;
    proof {
        lemma_fundamental_div_mod(shifted as int, 1_000_000_000);
        assert(frac as int == (q5 as int - 5) * 1_000_000_000 + nanos as int) by (nonlinear_arith)
            requires
                shifted as int == 1_000_000_000 * (shifted as int / 1_000_000_000) + shifted as int % 1_000_000_000,
                q5 as int == shifted as int / 1_000_000_000,
                nanos as int == shifted as int % 1_000_000_000,
                shifted as int == frac as int + 5_000_000_000,
        ;
        lemma_fundamental_div_mod_converse(frac as int, 1_000_000_000, q5 as int - 5, nanos as int);
        assert(q5 <= 10);
    }
    let secs: i128 = (now.0 as i128 - t.0 as i128) + leap + (q5 as i128 - 5);
    let whole: i128 = if secs < 0 && nanos > 0 { secs + 1 } else { secs };
    assert(whole == whole_seconds(now, t));
    assert(-0x2_0000_0000_0000_0000 < whole < 0x2_0000_0000_0000_0000);
    if whole >= 0 {
        let d: u128 = (whole as u128) / 86400;
        proof {
            lemma_div_is_ordered(whole as int, 0x2_0000_0000_0000_0000, 86400);
        }
        d as i64
    } else {
        let m: u128 = ((-whole) as u128) / 86400;
        proof {
            lemma_div_is_ordered(-whole as int, 0x2_0000_0000_0000_0000, 86400);
        }
        -(m as i64)
    }
}

/// The whole days from an RFC 3339 time to the moment `now`, or `None`
/// when the text is not such a time.
pub open spec fn rfc3339_days_at(stamp: Seq<char>, now: (i64, u32)) -> Option<i64> {
    match rfc3339_time_of(stamp) {
        Some(t) => Some(whole_days(now, t) as i64),
        None => None,
    }
}

/// The whole days from an RFC 3339 time to the moment `now`, or `None`
/// when the text is not such a time.
pub fn days_since_rfc3339_at(stamp: &str, now: (i64, u32)) -> (d: Option<i64>)
    ensures
        d == rfc3339_days_at(stamp@, now),
{
    match parse_rfc3339_time(stamp) {
        Some(t) => Some(days_between(now, t)),
        None => None,
    }
}

/// The whole days from an RFC 3339 time to now, or `None` when the text is
/// not such a time; the clock is read once.
pub fn days_since_rfc3339(stamp: &str) -> (d: Option<i64>)
    ensures
        exists|now: (i64, u32)| d == #[trigger] rfc3339_days_at(stamp@, now),
{
    let now = utc_now();
    days_since_rfc3339_at(stamp, now)
}

} // verus!
