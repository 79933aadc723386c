//! The time gate: when a day's puzzle becomes accessible.
//!
//! The service publishes each day's puzzle at local midnight of December
//! `day` in a fixed UTC-5 offset, with no daylight-saving adjustment. All
//! calendar arithmetic here is expressed in whole seconds since the Unix
//! epoch, so a "current instant" can be injected and the policy tested
//! deterministically; [`is_day_accessible`] is the convenience entry that
//! samples the machine's clock.

use vstd::prelude::*;

verus! {

/// The fixed publication offset: UTC-5, as the number of seconds local
/// midnight lies after UTC midnight. No daylight-saving adjustment is made.
pub const PUBLICATION_OFFSET_SECONDS: i64 = 5 * 3600;

/// Seconds in one civil day.
pub const SECONDS_PER_DAY: i64 = 86400;

/// Whether `y` is a leap year in the Gregorian calendar.
pub open spec fn is_leap_year(y: int) -> bool {
    (y % 4 == 0 && y % 100 != 0) || y % 400 == 0
}

/// The number of days in year `y`.
pub open spec fn year_days(y: int) -> int {
    if is_leap_year(y) {
        366
    } else {
        365
    }
}

/// The number of days from 1970-01-01 up to the first day of year `y`,
/// for `y >= 1970`.
pub open spec fn days_before_year(y: int) -> int
    decreases y,
{
    if y <= 1970 {
        0
    } else {
        days_before_year(y - 1) + year_days(y - 1)
    }
}

/// The instant (seconds since the Unix epoch) of local midnight, UTC-5, on
/// January 1 of year `y`.
pub open spec fn jan1_instant(y: int) -> int {
    days_before_year(y) * 86400 + 5 * 3600
}

/// The number of days from January 1 to December 1 of year `y`.
pub open spec fn days_to_december(y: int) -> int {
    334 + (if is_leap_year(y) { 1int } else { 0int })
}

/// The unlock instant of day `day` of year `year`: local midnight, UTC-5,
/// on December `day`, as seconds since the Unix epoch.
pub open spec fn unlock_instant(year: int, day: int) -> int {
    (days_before_year(year) + days_to_december(year) + (day - 1)) * 86400 + 5 * 3600
}

/// The unlock policy: at instant `now`, day `day` of year `year` is
/// accessible exactly when `now` has reached the unlock instant.
pub open spec fn accessible(now: int, year: int, day: int) -> bool {
    now >= unlock_instant(year, day)
}

/// Whether `y` is a leap year.
pub fn is_leap(y: i16) -> (r: bool)
    requires
        y >= 0,
    ensures
        r == is_leap_year(y as int),
{
    (y % 4 == 0 && y % 100 != 0) || y % 400 == 0
}

proof fn lemma_days_before_year_bound(y: int)
    requires
        1970 <= y,
    ensures
        0 <= days_before_year(y) <= (y - 1970) * 366,
    decreases y,
{
    if y > 1970 {
        lemma_days_before_year_bound(y - 1);
    }
}

/// The unlock instant of day `day` of year `year`, as seconds since the
/// Unix epoch.
pub fn unlock_timestamp(year: i16, day: u8) -> (r: i64)
    requires
        1970 <= year <= 9999,
        1 <= day <= 25,
    ensures
        r == unlock_instant(year as int, day as int),
{
    let mut days: i64 = 0;
    let mut y: i16 = 1970;
    while y < year
        invariant
            1970 <= y <= year <= 9999,
            days == days_before_year(y as int),
            0 <= days <= (y - 1970) as int * 366,
        decreases year - y,
    {
        days = days + if is_leap(y) { 366 } else { 365 };
        y = y + 1;
    }
    let december: i64 = if is_leap(year) { 335 } else { 334 };
    proof {
        lemma_days_before_year_bound(year as int);
    }
    (days + december + (day - 1) as i64) * SECONDS_PER_DAY + PUBLICATION_OFFSET_SECONDS
}

/// The time gate with an injected instant: whether day `day` of year `year` is
/// accessible at instant `now` (seconds since the Unix epoch).
pub fn accessible_at(now: i64, year: i16, day: u8) -> (r: bool)
    requires
        1970 <= year <= 9999,
        1 <= day <= 25,
    ensures
        r == accessible(now as int, year as int, day as int),
{
    now >= unlock_timestamp(year, day)
}

/// Relies on `jiff::Timestamp::now` for the current system time, with
/// `as_second` converting it to whole seconds since the Unix epoch. Nothing
/// is promised of the value: it is whatever the machine's clock says.
#[verifier::external_body]
pub(crate) fn clock_now_seconds() -> i64 {
    jiff::Timestamp::now().as_second()
}

/// Checks whether the specified day is accessible right now.
///
/// Samples the system clock and applies the policy of [`accessible_at`];
/// the verdict is `accessible(now, year, day)` for the sampled instant.
/// The clock is trusted: an incorrect system time can produce a wrong
/// verdict.
pub fn is_day_accessible(year: i16, day: u8) -> bool
    requires
        1970 <= year <= 9999,
        1 <= day <= 25,
{
    let now = clock_now_seconds();
    accessible_at(now, year, day)
}

/// January 1 of any later year lies after every unlock instant of `year`:
/// once the calendar year has passed, all of its days are accessible.
pub proof fn lemma_past_year_accessible(now: int, year: int, day: int)
    requires
        1 <= day <= 25,
        1970 <= year,
        now >= jan1_instant(year + 1),
    ensures
        accessible(now, year, day),
{
    assert(days_before_year(year + 1) == days_before_year(year) + year_days(year));
}

/// The time gate transitions from closed to open exactly at the unlock instant:
/// it is closed at every instant before it and open at every instant from
/// it on.
pub proof fn lemma_unlock_transition(before: int, after: int, year: int, day: int)
    requires
        before < unlock_instant(year, day),
        unlock_instant(year, day) <= after,
    ensures
        !accessible(before, year, day),
        accessible(after, year, day),
{
}

} // verus!
