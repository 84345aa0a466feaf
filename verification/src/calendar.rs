//! Calendar days. A day is carried as chrono's day number counted from the
//! common era (0001-01-01 is day 1); chrono parses dates and maps day numbers
//! back to year, month and day, std reads the clock, and the rest is computed
//! here.

use chrono::{Datelike, NaiveDate};
use vstd::prelude::*;
use vstd::string::StringExecFns;
use crate::text::{decimal_digits, decimal_text, push_char};

verus! {

/// The day number of 1970-01-01, the Unix epoch.
pub const UNIX_EPOCH_CE_DAY: i32 = 719_163;

/// Whether `y` is a leap year of the proleptic Gregorian calendar.
pub open spec fn is_leap_year(y: int) -> bool {
    (y % 4 == 0 && y % 100 != 0) || y % 400 == 0
}

/// Days in the years before year `y` (from year 1 on).
pub open spec fn days_before_year(y: int) -> int {
    let p = y - 1;
    365 * p + p / 4 - p / 100 + p / 400
}

/// Days in the months of year `y` before month `m`.
pub open spec fn days_before_month(y: int, m: int) -> int {
    let leap: int = if is_leap_year(y) { 1 } else { 0 };
    if m <= 1 { 0 }
    else if m == 2 { 31 }
    else if m == 3 { 59 + leap }
    else if m == 4 { 90 + leap }
    else if m == 5 { 120 + leap }
    else if m == 6 { 151 + leap }
    else if m == 7 { 181 + leap }
    else if m == 8 { 212 + leap }
    else if m == 9 { 243 + leap }
    else if m == 10 { 273 + leap }
    else if m == 11 { 304 + leap }
    else { 334 + leap }
}

/// The day number of a date from year 1 on, counting 0001-01-01 as day 1,
/// as `Datelike::num_days_from_ce` counts.
pub open spec fn gregorian_ce_day(y: int, m: int, d: int) -> int {
    days_before_year(y) + days_before_month(y, m) + d
}

/// The epoch constant is 1970-01-01.
pub proof fn lemma_unix_epoch_is_1970_01_01()
    ensures
        UNIX_EPOCH_CE_DAY == gregorian_ce_day(1970, 1, 1),
{
}

/// Seconds in a calendar day of UTC.
pub const SECONDS_PER_DAY: i64 = 86_400;

/// Day numbers within the span that chrono's `NaiveDate` can represent
/// (262144 BCE to 262142 CE), with room to spare.
pub open spec fn day_in_range(d: int) -> bool {
    -100_000_000 <= d <= 100_000_000
}

/// What `NaiveDate::parse_from_str(s, "%Y-%m-%d")` gives, as a day number.
pub uninterp spec fn parsed_ce_day(s: Seq<char>) -> Option<int>;

/// `chrono::NaiveDate::parse_from_str` with the format `%Y-%m-%d`, the parsed
/// date taken by its day number (`Datelike::num_days_from_ce`). Claims that the
/// result is the named parse of `s`, that a parsed date lies in chrono's span,
/// and that chrono maps its day number back to a date
/// (`from_num_days_from_ce_opt` fails only outside the span of `NaiveDate`);
/// which strings parse is left to the name.
#[verifier::external_body]
pub(crate) fn parse_iso_date(s: &str) -> (r: Option<i32>)
    ensures
        match r {
            Some(d) => {
                &&& parsed_ce_day(s@) == Some(d as int)
                &&& day_in_range(d as int)
                &&& calendar_of(d as int) is Some
            },
            None => parsed_ce_day(s@) is None,
        },
{
    match NaiveDate::parse_from_str(s, "%Y-%m-%d") {
        Ok(date) => Some(date.num_days_from_ce()),
        Err(_) => None,
    }
}

/// A reading of the system clock, in milliseconds from the Unix epoch,
/// on whichever side of it the clock stands.
pub enum ClockReading {
    SinceEpoch(u128),
    BeforeEpoch(u128),
}

/// The signed number of milliseconds a reading stands from the epoch.
pub open spec fn reading_millis(r: ClockReading) -> int {
    match r {
        ClockReading::SinceEpoch(ms) => ms as int,
        ClockReading::BeforeEpoch(ms) => -(ms as int),
    }
}

/// `std::time::SystemTime::now`, measured against the Unix epoch with
/// `duration_since(UNIX_EPOCH)`: the elapsed time when the clock is past the
/// epoch, else the time it lacks (the error's `duration`), each taken by
/// `as_millis`. The reading depends on the clock: nothing is claimed of it.
#[verifier::external_body]
pub(crate) fn read_clock() -> ClockReading {
    match std::time::SystemTime::now().duration_since(std::time::UNIX_EPOCH) {
        Ok(elapsed) => ClockReading::SinceEpoch(elapsed.as_millis()),
        Err(before) => ClockReading::BeforeEpoch(before.duration().as_millis()),
    }
}

/// The whole seconds of a reading, rounded down as chrono's `timestamp`
/// rounds; 0 for a reading whose seconds do not fit in `i64`, which chrono
/// cannot represent either.
pub open spec fn stamp_of(r: ClockReading) -> int {
    let secs = reading_millis(r) / 1000;
    if i64::MIN <= secs <= i64::MAX {
        secs
    } else {
        0
    }
}

/// The Unix timestamp, in seconds, that a clock reading stamps.
pub fn stamp_seconds(reading: ClockReading) -> (t: i64)
    ensures
        t == stamp_of(reading),
{
    match reading {
        ClockReading::SinceEpoch(ms) => {
            let secs = ms / 1000;
            if secs <= 9_223_372_036_854_775_807u128 {
                secs as i64
            } else {
                0
            }
        },
        ClockReading::BeforeEpoch(ms) => {
            let whole = ms / 1000;
            let up: u128 = if ms % 1000 != 0 {
                whole + 1
            } else {
                whole
            };
            assert(-(ms as int) / 1000 == -(up as int)) by (nonlinear_arith)
                requires
                    whole == ms / 1000,
                    ms % 1000 != 0 ==> up == whole + 1,
                    ms % 1000 == 0 ==> up == whole,
            ;
            if up <= 9_223_372_036_854_775_808u128 {
                if up == 9_223_372_036_854_775_808u128 {
                    i64::MIN
                } else {
                    -(up as i64)
                }
            } else {
                0
            }
        },
    }
}

/// What `NaiveDate::from_num_days_from_ce_opt` gives, as (year, month, day).
pub uninterp spec fn calendar_of(ce: int) -> Option<(int, int, int)>;

/// `chrono::NaiveDate::from_num_days_from_ce_opt`, the date taken by its year,
/// month and day. Claims that the result is the named calendar date of `ce`
/// and, as chrono documents, that months count from 1 to 12 and days from 1
/// to 31; which day numbers chrono maps to which dates is left to the name.
#[verifier::external_body]
pub(crate) fn calendar_date(ce: i32) -> (r: Option<(i32, u32, u32)>)
    ensures
        match r {
            Some(t) => {
                &&& calendar_of(ce as int) == Some((t.0 as int, t.1 as int, t.2 as int))
                &&& 1 <= t.1 <= 12
                &&& 1 <= t.2 <= 31
            },
            None => calendar_of(ce as int) is None,
        },
{
    match NaiveDate::from_num_days_from_ce_opt(ce) {
        Some(date) => Some((date.year(), date.month(), date.day())),
        None => None,
    }
}

/// Seconds since the Unix epoch at midnight UTC that starts day `ce`.
pub open spec fn midnight_seconds(ce: int) -> int {
    (ce - UNIX_EPOCH_CE_DAY) * SECONDS_PER_DAY
}

/// The Unix timestamp, in seconds, of midnight UTC at the start of day `ce`
/// (`date.and_hms(0, 0, 0).timestamp_millis() / 1000`).
pub fn midnight_timestamp(ce: i32) -> (t: i64)
    ensures
        t == midnight_seconds(ce as int),
{
    (ce as i64 - UNIX_EPOCH_CE_DAY as i64) * SECONDS_PER_DAY
}

/// The Unix timestamp of midnight UTC `days` days before day `today`
/// (the start of `today - Duration::days(days)`).
pub fn days_ago_timestamp(today: i32, days: i32) -> (t: i64)
    requires
        i32::MIN <= today - days <= i32::MAX,
    ensures
        t == midnight_seconds(today - days),
{
    midnight_timestamp(today - days)
}

/// The Unix timestamps of midnight one and seven days before day `today`,
/// the days whose contribution logs a profile compares with.
pub fn profile_log_timestamps(today: i32) -> (r: (i64, i64))
    requires
        today >= i32::MIN + 7,
    ensures
        r.0 == midnight_seconds(today - 1),
        r.1 == midnight_seconds(today - 7),
{
    (days_ago_timestamp(today, 1), days_ago_timestamp(today, 7))
}

/// Decimal digits left-padded with `0` to at least `width` characters.
pub open spec fn zero_padded(n: nat, width: nat) -> Seq<char> {
    let digits = decimal_digits(n);
    if digits.len() < width {
        Seq::new((width - digits.len()) as nat, |i: int| '0') + digits
    } else {
        digits
    }
}

/// How chrono writes a year: four digits within 0..=9999, otherwise an
/// explicit sign and at least four digits.
pub open spec fn year_text(y: int) -> Seq<char> {
    if 0 <= y <= 9999 {
        zero_padded(y as nat, 4)
    } else if y < 0 {
        seq!['-'] + zero_padded((-y) as nat, 4)
    } else {
        seq!['+'] + zero_padded(y as nat, 4)
    }
}

/// How chrono's `Date<Utc>` displays: `YYYY-MM-DD` followed by `UTC`.
pub open spec fn utc_date_text(y: int, m: nat, d: nat) -> Seq<char> {
    year_text(y) + seq!['-'] + zero_padded(m, 2) + seq!['-'] + zero_padded(d, 2) + "UTC"@
}

fn zero_padded_text(n: u64, width: usize) -> (s: String)
    ensures
        s@ == zero_padded(n as nat, width as nat),
{
    let digits = decimal_text(n);
    let len = digits.as_str().unicode_len();
    let mut s = String::new();
    let mut k: usize = len;
    while k < width
        invariant
            len == digits@.len(),
            len <= k <= width || (width < len && k == len),
            s@ == Seq::new((k - len) as nat, |i: int| '0'),
        decreases width - k,
    {
        push_char(&mut s, '0');
        assert(s@ =~= Seq::new((k + 1 - len) as nat, |i: int| '0'));
        k = k + 1;
    }
    s.append(digits.as_str());
    proof {
        if len >= width {
            assert(s@ =~= digits@);
        }
    }
    s
}

/// Writes a calendar date the way chrono displays a `Date<Utc>`.
pub fn utc_date_display(y: i32, m: u32, d: u32) -> (s: String)
    ensures
        s@ == utc_date_text(y as int, m as nat, d as nat),
{
    let mut s = String::new();
    if 0 <= y && y <= 9999 {
        s = zero_padded_text(y as u64, 4);
    } else if y < 0 {
        push_char(&mut s, '-');
        let magnitude: u64 = ((-(y as i64)) as u64);
        s.append(zero_padded_text(magnitude, 4).as_str());
    } else {
        push_char(&mut s, '+');
        s.append(zero_padded_text(y as u64, 4).as_str());
    }
    push_char(&mut s, '-');
    s.append(zero_padded_text(m as u64, 2).as_str());
    push_char(&mut s, '-');
    s.append(zero_padded_text(d as u64, 2).as_str());
    s.append("UTC");
    s
}

} // verus!
