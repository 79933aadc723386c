//! Resolving the target year and the session credential.
//!
//! Configuration is an explicit [`Config`] value, constructed once by the
//! embedding program and passed in; nothing here reads the environment. The
//! year falls back to the current calendar year, derived from an injected
//! instant using the same fixed UTC-5 convention as the time gate.

use vstd::prelude::*;
use crate::error::Error;
use crate::timegate::{jan1_instant, is_leap, days_before_year};

verus! {

/// The configuration the subsystem is given: an optional target year and an
/// optional session token. Resolved once per invocation; never persisted.
pub struct Config {
    /// The configured year, if any.
    pub year: Option<i16>,
    /// The configured session token, if any. No format validation is
    /// performed: an invalid token is only discovered when the service
    /// rejects the request that carries it.
    pub session_token: Option<String>,
}

/// The calendar year, in the fixed UTC-5 offset, that instant `ts` falls in,
/// searched upward from `y`. Clamped to 9999, the last year of the
/// calendar model.
pub open spec fn year_from(ts: int, y: int) -> int
    decreases 9999 - y,
    when y <= 9999
{
    if y >= 9999 {
        9999
    } else if ts < jan1_instant(y + 1) {
        y
    } else {
        year_from(ts, y + 1)
    }
}

/// The calendar year, in the fixed UTC-5 offset, that instant `ts` (seconds
/// since the Unix epoch) falls in. Instants before 1970 give 1970 and
/// instants past the model's horizon give 9999.
pub open spec fn civil_year_utc5(ts: int) -> int {
    year_from(ts, 1970)
}

proof fn lemma_days_before_year_monotone(a: int, b: int)
    requires
        a <= b,
    ensures
        days_before_year(a) <= days_before_year(b),
    decreases b - a,
{
    if a < b {
        lemma_days_before_year_monotone(a, b - 1);
    }
}

/// `civil_year_utc5` is the unique year whose January 1 is at or before the
/// instant while the next year's is after it.
pub proof fn lemma_civil_year_unique(ts: int, y: int)
    requires
        1970 <= y < 9999,
        jan1_instant(y) <= ts,
        ts < jan1_instant(y + 1),
    ensures
        civil_year_utc5(ts) == y,
{
    lemma_year_from_finds(ts, 1970, y);
}

proof fn lemma_year_from_finds(ts: int, z: int, y: int)
    requires
        1970 <= z <= y < 9999,
        jan1_instant(y) <= ts,
        ts < jan1_instant(y + 1),
    ensures
        year_from(ts, z) == y,
    decreases y - z,
{
    if z < y {
        lemma_days_before_year_monotone(z + 1, y);
        lemma_year_from_finds(ts, z + 1, y);
    }
}

proof fn lemma_year_from_range(ts: int, z: int)
    requires
        1970 <= z <= 9999,
    ensures
        z <= year_from(ts, z) <= 9999,
    decreases 9999 - z,
{
    if z < 9999 && ts >= jan1_instant(z + 1) {
        lemma_year_from_range(ts, z + 1);
    }
}

proof fn lemma_year_from_past(ts: int, z: int, year: int)
    requires
        1970 <= z <= year < 9999,
        year_from(ts, z) > year,
    ensures
        ts >= jan1_instant(year + 1),
    decreases year - z,
{
    if ts < jan1_instant(z + 1) {
        assert(year_from(ts, z) == z);
    } else {
        if z < year {
            lemma_year_from_past(ts, z + 1, year);
        }
    }
}

/// A year strictly before the current calendar year (in the fixed UTC-5
/// offset) has every unlock instant behind it: all of its days are
/// accessible.
pub proof fn lemma_earlier_year_accessible(now: int, year: int, day: int)
    requires
        1 <= day <= 25,
        1970 <= year,
        year < civil_year_utc5(now),
    ensures
        crate::timegate::accessible(now, year, day),
{
    lemma_year_from_range(now, 1970);
    lemma_year_from_past(now, 1970, year);
    crate::timegate::lemma_past_year_accessible(now, year, day);
}

/// The calendar year, in the fixed UTC-5 offset, of instant `now`.
pub fn current_year_utc5(now: i64) -> (r: i16)
    ensures
        r as int == civil_year_utc5(now as int),
        1970 <= r <= 9999,
{
    let mut y: i16 = 1970;
    let mut days: i64 = 0;
    loop
        invariant
            1970 <= y <= 9999,
            days == days_before_year(y as int),
            0 <= days <= (y - 1970) as int * 366,
            year_from(now as int, 1970) == year_from(now as int, y as int),
        decreases 9999 - y,
    {
        if y >= 9999 {
            return y;
        }
        let next_days = days + if is_leap(y) { 366 } else { 365 };
        let next_jan1 = next_days * SECONDS_PER_DAY_LOCAL + OFFSET_LOCAL;
        assert(next_jan1 == jan1_instant(y as int + 1));
        if now < next_jan1 {
            return y;
        }
        days = next_days;
        y = y + 1;
    }
}

/// Seconds in one civil day.
const SECONDS_PER_DAY_LOCAL: i64 = 86400;

/// The fixed UTC-5 publication offset in seconds.
const OFFSET_LOCAL: i64 = 5 * 3600;

/// Resolves the target year: the configured year if present, otherwise the
/// current calendar year derived from the injected instant `now`. Never
/// fails; the embedding program is expected to warn when the fallback is
/// taken.
pub fn resolve_year(config: &Config, now: i64) -> (r: i16)
    ensures
        match config.year {
            Some(y) => r == y,
            None => r as int == civil_year_utc5(now as int),
        },
{
    match config.year {
        Some(y) => y,
        None => current_year_utc5(now),
    }
}

/// Resolves the session token: the configured token if present, and a
/// configuration error exactly when it is absent.
pub fn resolve_session_token(config: &Config) -> (r: Result<String, Error>)
    ensures
        match config.session_token {
            Some(s) => r matches Ok(t) && t == s,
            None => r == Err::<String, Error>(Error::Config),
        },
{
    match &config.session_token {
        Some(t) => Ok(t.clone()),
        None => Err(Error::Config),
    }
}

} // verus!
