//! Shared records and decisions: the reputation kinds and tallies, the
//! contribution log, the database handle, and the values that the database
//! queries are made with.

use vstd::prelude::*;
use vstd::string::StringExecFns;
use crate::calendar::{
    calendar_date, calendar_of, read_clock, stamp_of, stamp_seconds, utc_date_display,
    ClockReading, utc_date_text, year_text, zero_padded,
};
use crate::text::{
    digit_char, free_of, lemma_decimal_digits_free, not_a_digit, remove_all,
    without_pattern,
};

verus! {

/// The handle through which the bot reaches its database.
#[derive(Clone, Copy)]
pub struct DBClient;

impl DBClient {
    /// The bot's database handle.
    pub fn get() -> (c: DBClient)
        ensures
            c == DBClient,
    {
        DBClient
    }
}

/// A reputation given to a member: positive or negative.
#[derive(Debug)]
pub enum RepType {
    PlusRep,
    MinRep,
}

impl RepType {
    /// What the database stores for the kind: 1 for positive, 0 for negative.
    pub open spec fn spec_value(&self) -> u8 {
        match *self {
            RepType::PlusRep => 1,
            RepType::MinRep => 0,
        }
    }

    /// What the database stores for the kind.
    pub fn value(&self) -> (v: u8)
        ensures
            v == self.spec_value(),
    {
        match *self {
            RepType::PlusRep => 1,
            RepType::MinRep => 0,
        }
    }
}

/// The two kinds are stored as different values, so the tally of one kind
/// never counts the other.
pub proof fn lemma_rep_kinds_stored_apart()
    ensures
        RepType::PlusRep.spec_value() != RepType::MinRep.spec_value(),
{
}

/// Positive and negative reputation counts of a member.
#[derive(Debug)]
pub struct RepData {
    pub positive: i32,
    pub negative: i32,
}

impl Default for RepData {
    fn default() -> (r: Self)
        ensures
            r.positive == 0,
            r.negative == 0,
    {
        RepData { positive: 0, negative: 0 }
    }
}

/// The counts a member's reputation query gave, or none of either when the
/// query found nothing (`unwrap_or(RepData::default())`).
pub fn rep_data_or_default(entry: Option<RepData>) -> (r: RepData)
    ensures
        match entry {
            Some(d) => r == d,
            None => r.positive == 0 && r.negative == 0,
        },
{
    match entry {
        Some(d) => d,
        None => RepData::default(),
    }
}

/// One entry of the contribution log: what a member had contributed at a time.
#[derive(Debug)]
pub struct ContributionLogs {
    pub id: i64,
    /// When the entry was logged, in seconds since the Unix epoch.
    pub ts: i64,
    pub username: String,
    pub uuid: String,
    pub contributed_xp: i64,
}

impl Default for ContributionLogs {
    /// An empty entry stamped with the current time, in whole seconds
    /// (`stamp_seconds` of a clock reading).
    fn default() -> (r: Self)
        ensures
            r.id == 0,
            r.username@ == Seq::<char>::empty(),
            r.uuid@ == Seq::<char>::empty(),
            r.contributed_xp == 0,
            exists|reading: ClockReading| #[trigger] stamp_of(reading) == r.ts,
    {
        let reading = read_clock();
        ContributionLogs {
            id: 0,
            ts: stamp_seconds(reading),
            username: String::new(),
            uuid: String::new(),
            contributed_xp: 0,
        }
    }
}

/// A span of days, each given by its day number.
pub struct TimePeriod(pub i32, pub i32);

/// Milliseconds in one day.
pub const MILLIS_PER_DAY: i64 = 86_400_000;

/// Division by 1000 rounding toward zero, as Rust's `/` does.
pub open spec fn millis_to_seconds(ms: int) -> int {
    if ms >= 0 {
        ms / 1000
    } else {
        -((-ms) / 1000)
    }
}

/// Milliseconds as whole seconds, rounded toward zero (`ms / 1000`).
pub fn millis_to_secs(ms: i64) -> (t: i64)
    ensures
        t == millis_to_seconds(ms as int),
{
    if ms >= 0 {
        ms / 1000
    } else {
        -((-(ms + 1)) / 1000) - (if (-(ms + 1)) % 1000 == 999 { 1 } else { 0 })
    }
}

/// One day before `now_ms`, in whole seconds.
pub open spec fn window_start(now_ms: int) -> int {
    millis_to_seconds(now_ms - MILLIS_PER_DAY)
}

/// The earliest time, in seconds, from which an earlier reputation blocks a
/// new one: one day before `now_ms` (`(now - 1 day).timestamp_millis() / 1000`).
pub fn rep_window_start(now_ms: i64) -> (t: i64)
    requires
        now_ms >= i64::MIN + MILLIS_PER_DAY,
    ensures
        t == window_start(now_ms as int),
{
    millis_to_secs(now_ms - MILLIS_PER_DAY)
}

/// Whether a member may give another reputation: only when it gave that
/// member none within the last day (`results.len() == 0`).
pub fn can_give_rep(reps_in_window: usize) -> (r: bool)
    ensures
        r == (reps_in_window == 0),
{
    reps_in_window == 0
}

/// The answer when storing a reputation failed.
pub open spec fn store_failed_message() -> Seq<char> {
    "An error occurred"@
}

/// The outcome of `give_rep` once the database has answered.
pub fn give_rep_outcome(stored: bool) -> (r: Result<(), String>)
    ensures
        stored ==> r is Ok,
        !stored ==> (r matches Err(e) && e@ == store_failed_message()),
{
    if stored {
        Ok(())
    } else {
        Err(String::from_str("An error occurred"))
    }
}

/// A date as the contribution-log query compares it: chrono's text of the
/// `Date<Utc>` with every `Z` and then every `UTC` taken out.
pub open spec fn period_bound_chars(y: int, m: nat, d: nat) -> Seq<char> {
    without_pattern(without_pattern(utc_date_text(y, m, d), "Z"@), "UTC"@)
}

/// The text of a date for the contribution-log query.
pub fn period_bound_text(y: i32, m: u32, d: u32) -> (s: String)
    ensures
        s@ == period_bound_chars(y as int, m as nat, d as nat),
{
    let shown = utc_date_display(y, m, d);
    let no_z = remove_all(shown.as_str(), "Z");
    remove_all(no_z.as_str(), "UTC")
}

/// The two bounds of a period as the contribution-log query takes them; none
/// when chrono has no date for one of the day numbers.
pub fn time_period_bounds(period: &TimePeriod) -> (r: Option<(String, String)>)
    ensures
        match (calendar_of(period.0 as int), calendar_of(period.1 as int)) {
            (Some(a), Some(b)) => r matches Some(p) && p.0@ == period_bound_chars(
                a.0,
                a.1 as nat,
                a.2 as nat,
            ) && p.1@ == period_bound_chars(b.0, b.1 as nat, b.2 as nat),
            _ => r is None,
        },
{
    match (calendar_date(period.0), calendar_date(period.1)) {
        (Some(a), Some(b)) => Some((period_bound_text(a.0, a.1, a.2), period_bound_text(b.0, b.1, b.2))),
        _ => None,
    }
}

/// A calendar date as `YYYY-MM-DD`, the year written as chrono writes it.
pub open spec fn iso_date_chars(y: int, m: nat, d: nat) -> Seq<char> {
    year_text(y) + seq!['-'] + zero_padded(m, 2) + seq!['-'] + zero_padded(d, 2)
}

/// A prefix without the pattern's first character passes through unchanged.
pub proof fn lemma_without_pattern_free_prefix(a: Seq<char>, b: Seq<char>, p: Seq<char>)
    requires
        p.len() > 0,
        free_of(a, p[0]),
    ensures
        without_pattern(a + b, p) == a + without_pattern(b, p),
    decreases a.len(),
{
    if a.len() > 0 {
        let s = a + b;
        if p.len() <= s.len() {
            assert(s.take(p.len() as int)[0] != p[0]);
        }
        assert(s.skip(1) =~= a.skip(1) + b);
        lemma_without_pattern_free_prefix(a.skip(1), b, p);
        assert(seq![a[0]] + (a.skip(1) + without_pattern(b, p)) =~= a + without_pattern(b, p));
    } else {
        assert(a + b =~= b);
    }
}

proof fn lemma_zero_padded_free(n: nat, width: nat, c: char)
    requires
        not_a_digit(c),
    ensures
        free_of(zero_padded(n, width), c),
{
    assert(digit_char(0) != c);
    lemma_decimal_digits_free(n, c);
}

proof fn lemma_iso_date_free(y: int, m: nat, d: nat, c: char)
    requires
        not_a_digit(c),
        c != '-',
        c != '+',
    ensures
        free_of(iso_date_chars(y, m, d), c),
{
    if y < 0 {
        lemma_zero_padded_free((-y) as nat, 4, c);
    } else {
        lemma_zero_padded_free(y as nat, 4, c);
    }
    lemma_zero_padded_free(m, 2, c);
    lemma_zero_padded_free(d, 2, c);
}

/// The date text that the contribution-log query compares is the plain
/// `YYYY-MM-DD` of the date: taking out `Z` and `UTC` from chrono's display
/// removes exactly the zone suffix.
pub proof fn lemma_period_bound_is_iso_date(y: int, m: nat, d: nat)
    ensures
        period_bound_chars(y, m, d) == iso_date_chars(y, m, d),
{
    reveal_strlit("UTC");
    reveal_strlit("Z");
    let iso = iso_date_chars(y, m, d);
    let zone = "UTC"@;
    assert(utc_date_text(y, m, d) =~= iso + zone);
    assert forall|k: nat| k < 10 implies #[trigger] digit_char(k) != 'Z' && digit_char(k) != 'U' by {}
    lemma_iso_date_free(y, m, d, 'Z');
    lemma_iso_date_free(y, m, d, 'U');
    assert(free_of(iso + zone, 'Z'));
    lemma_without_pattern_free_prefix(iso + zone, Seq::empty(), "Z"@);
    assert(iso + zone + Seq::<char>::empty() =~= iso + zone);
    lemma_without_pattern_free_prefix(iso, zone, zone);
    assert(zone.take(3) =~= zone);
    assert(zone.skip(3) =~= Seq::<char>::empty());
    assert(without_pattern(zone.skip(3), zone) == zone.skip(3));
    assert(without_pattern(zone, zone) =~= Seq::<char>::empty());
    assert(iso + Seq::<char>::empty() =~= iso);
}

} // verus!
