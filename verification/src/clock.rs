//! Reading the system clock, and writing a time as an ISO 8601 timestamp
//! in UTC: the calendar date and time of day `secs` seconds after
//! 1970-01-01T00:00:00Z.

use vstd::prelude::*;
use vstd::string::StringExecFns;
use crate::text::{append_decimal, decimal, opt_text, push_char};

verus! {

/// The seconds and nanoseconds since the Unix epoch that the system clock
/// reads; `None` when it reads a time before the epoch.
///
/// Trusted: calls `SystemTime::now`, then `SystemTime::duration_since`
/// with `UNIX_EPOCH` (an error when the clock is before the epoch), then
/// `Duration::as_secs` and `Duration::subsec_nanos`. The contract states
/// only the documented bound of the nanoseconds, below one second; the
/// time itself depends on the clock.
#[verifier::external_body]
pub(crate) fn unix_time() -> (t: Option<(u64, u32)>)
    ensures
        t matches Some(p) ==> p.1 < 1_000_000_000,
{
    std::time::SystemTime::now().duration_since(std::time::UNIX_EPOCH).ok().map(
        |d| (d.as_secs(), d.subsec_nanos()),
    )
}

/// The whole seconds since the Unix epoch that the clock reads, 0 when it
/// reads a time before the epoch.
pub(crate) fn unix_time_secs() -> u64 {
    match unix_time() {
        Some(p) => p.0,
        None => 0,
    }
}

/// Gregorian leap years.
pub open spec fn is_leap_year(y: int) -> bool {
    (y % 4 == 0 && y % 100 != 0) || y % 400 == 0
}

pub open spec fn days_in_year(y: int) -> int {
    if is_leap_year(y) {
        366
    } else {
        365
    }
}

pub open spec fn days_in_month(y: int, m: int) -> int {
    if m == 2 {
        if is_leap_year(y) {
            29
        } else {
            28
        }
    } else if m == 4 || m == 6 || m == 9 || m == 11 {
        30
    } else {
        31
    }
}

/// The days from 1970-01-01 to the first of January of year `y`.
pub open spec fn days_before_year(y: int) -> int
    decreases y - 1970,
{
    if y <= 1970 {
        0
    } else {
        days_before_year(y - 1) + days_in_year(y - 1)
    }
}

/// The days of year `y` before the first of month `m`.
pub open spec fn days_before_month(y: int, m: int) -> int
    decreases m,
{
    if m <= 1 {
        0
    } else {
        days_before_month(y, m - 1) + days_in_month(y, m - 1)
    }
}

/// `y-m-d` is a date of 1970 or later.
pub open spec fn is_date(y: int, m: int, d: int) -> bool {
    y >= 1970 && 1 <= m <= 12 && 1 <= d <= days_in_month(y, m)
}

/// The number of days from 1970-01-01 to `y-m-d`.
pub open spec fn day_number(y: int, m: int, d: int) -> int {
    days_before_year(y) + days_before_month(y, m) + d - 1
}

/// A number below 100 in two digits.
pub open spec fn two_digits(n: int) -> Seq<char> {
    if n < 10 {
        seq!['0'] + decimal(n as nat)
    } else {
        decimal(n as nat)
    }
}

/// `YYYY-MM-DDThh:mm:ssZ` for date `y-m-d` and the `s`-th second of that
/// day.
pub open spec fn iso8601_text(y: int, m: int, d: int, s: int) -> Seq<char> {
    decimal(y as nat) + "-"@ + two_digits(m) + "-"@ + two_digits(d) + "T"@ + two_digits(s / 3600)
        + ":"@ + two_digits((s % 3600) / 60) + ":"@ + two_digits(s % 60) + "Z"@
}

/// `text` is the ISO 8601 UTC timestamp of the time `secs` seconds after
/// the Unix epoch.
pub open spec fn is_iso8601_of(text: Seq<char>, secs: nat) -> bool {
    exists|y: int, m: int, d: int|
        is_date(y, m, d) && day_number(y, m, d) == secs / 86400 && text == #[trigger] iso8601_text(
            y,
            m,
            d,
            (secs % 86400) as int,
        )
}

fn year_length(y: u64) -> (n: u64)
    ensures
        n == days_in_year(y as int),
{
    if (y % 4 == 0 && y % 100 != 0) || y % 400 == 0 {
        366
    } else {
        365
    }
}

fn month_length(y: u64, m: u64) -> (n: u64)
    ensures
        n == days_in_month(y as int, m as int),
{
    if m == 2 {
        if (y % 4 == 0 && y % 100 != 0) || y % 400 == 0 {
            29
        } else {
            28
        }
    } else if m == 4 || m == 6 || m == 9 || m == 11 {
        30
    } else {
        31
    }
}

proof fn lemma_months_fill_year(y: int)
    ensures
        days_before_month(y, 13) == days_in_year(y),
{
    reveal_with_fuel(days_before_month, 13);
}

fn append_two_digits(s: &mut String, n: u64)
    requires
        n < 100,
    ensures
        final(s)@ == old(s)@ + two_digits(n as int),
{
    if n < 10 {
        push_char(s, '0');
    }
    append_decimal(s, n);
    assert(final(s)@ =~= old(s)@ + two_digits(n as int)) by {
        if n < 10 {
            assert(old(s)@.push('0') + decimal(n as nat) =~= old(s)@ + (seq!['0'] + decimal(
                n as nat,
            )));
        }
    }
}

/// The ISO 8601 UTC timestamp (`YYYY-MM-DDThh:mm:ssZ`) of the time `secs`
/// seconds after the Unix epoch.
pub fn iso8601_utc(secs: u64) -> (t: String)
    ensures
        is_iso8601_of(t@, secs as nat),
{
    let total: u64 = secs / 86400;
    let sod: u64 = secs % 86400;
    let mut days: u64 = total;
    let mut y: u64 = 1970;
    while days >= year_length(y)
        invariant
            y >= 1970,
            y - 1970 <= total - days,
            days <= total,
            total == secs / 86400,
            days_before_year(y as int) + days == total,
        decreases days,
    {
        days = days - year_length(y);
        y = y + 1;
    }
    let ghost doy = days;
    let mut m: u64 = 1;
    proof {
        lemma_months_fill_year(y as int);
    }
    while days >= month_length(y, m)
        invariant
            1 <= m <= 12,
            days <= doy,
            doy < days_in_year(y as int),
            days_before_month(y as int, m as int) + days == doy,
            days_before_month(y as int, 13) == days_in_year(y as int),
        decreases 12 - m,
    {
        days = days - month_length(y, m);
        assert(m < 12) by {
            if m == 12 {
                assert(days_before_month(y as int, 13) == days_before_month(y as int, 12)
                    + days_in_month(y as int, 12));
            }
        }
        m = m + 1;
    }
    let d = days + 1;
    let mut t = String::new();
    append_decimal(&mut t, y);
    t.append("-");
    append_two_digits(&mut t, m);
    t.append("-");
    append_two_digits(&mut t, d);
    t.append("T");
    append_two_digits(&mut t, sod / 3600);
    t.append(":");
    append_two_digits(&mut t, (sod % 3600) / 60);
    t.append(":");
    append_two_digits(&mut t, sod % 60);
    t.append("Z");
    assert(t@ =~= iso8601_text(y as int, m as int, d as int, sod as int));
    assert(is_date(y as int, m as int, d as int));
    assert(day_number(y as int, m as int, d as int) == secs / 86400);
    t
}

/// The ISO 8601 UTC timestamp of the time the clock reads (of the epoch
/// when it reads a time before it).
pub fn current_iso8601() -> (t: String)
    ensures
        exists|s: u64| is_iso8601_of(t@, s as nat),
{
    iso8601_utc(unix_time_secs())
}

/// What `chrono` writes as the RFC 3339 text of the time `secs` seconds and
/// `nanos` nanoseconds after the Unix epoch, or `None` when it cannot
/// represent that time.
pub uninterp spec fn rfc3339_text(secs: int, nanos: int) -> Option<Seq<char>>;

/// The RFC 3339 text of a time.
///
/// Trusted: calls `chrono::DateTime::from_timestamp`, which returns `None`
/// for a time out of chrono's range, then `DateTime::to_rfc3339`. The
/// contract names the result, which depends on the two numbers alone.
#[verifier::external_body]
fn rfc3339_at(secs: i64, nanos: u32) -> (r: Option<String>)
    ensures
        opt_text(r) == rfc3339_text(secs as int, nanos as int),
{
    chrono::DateTime::from_timestamp(secs, nanos).map(|d| d.to_rfc3339())
}

/// The text used for the current time when the clock reads a time before
/// the epoch or out of chrono's range: the epoch itself.
pub const EPOCH_RFC3339: &'static str = "1970-01-01T00:00:00+00:00";

/// The RFC 3339 text for a clock reading (seconds and nanoseconds since the
/// Unix epoch): chrono's text of that time, or `EPOCH_RFC3339` when there
/// is no reading or chrono cannot represent it.
pub open spec fn rfc3339_reading_text(reading: Option<(u64, u32)>) -> Seq<char> {
    match reading {
        Some(p) => if p.0 <= i64::MAX && rfc3339_text(p.0 as int, p.1 as int) is Some {
            rfc3339_text(p.0 as int, p.1 as int)->Some_0
        } else {
            EPOCH_RFC3339@
        },
        None => EPOCH_RFC3339@,
    }
}

/// The RFC 3339 text for a clock reading (see `rfc3339_reading_text`).
pub fn rfc3339_of_reading(reading: Option<(u64, u32)>) -> (t: String)
    ensures
        t@ == rfc3339_reading_text(reading),
{
    match reading {
        Some(p) => {
            if p.0 <= 0x7fff_ffff_ffff_ffff {
                match rfc3339_at(p.0 as i64, p.1) {
                    Some(t) => t,
                    None => String::from_str(EPOCH_RFC3339),
                }
            } else {
                String::from_str(EPOCH_RFC3339)
            }
        },
        None => String::from_str(EPOCH_RFC3339),
    }
}

/// The RFC 3339 text of the time the clock reads, as `Utc::now().to_rfc3339()`
/// gives it, or `EPOCH_RFC3339` when it cannot be written.
pub fn current_rfc3339() -> (t: String)
    ensures
        exists|reading: Option<(u64, u32)>| t@ == rfc3339_reading_text(reading),
{
    let reading = unix_time();
    rfc3339_of_reading(reading)
}

} // verus!
